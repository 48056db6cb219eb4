//! The query engine: filter criteria, their composition, and pagination.
//!
//! A request supplies raw `key=value` tokens.  Recognized filter keys each
//! contribute an equality constraint on the matching record field and
//! compose by logical conjunction; recognized pagination keys select a
//! 1-based page of a fixed size.  Anything else is ignored, and a numeric
//! value that does not parse falls back to the key's default.

use vstd::arithmetic::div_mod::{lemma_div_multiples_vanish_fancy, lemma_fundamental_div_mod};
use vstd::arithmetic::mul::lemma_mul_inequality;
use vstd::prelude::*;

use crate::record::{StationRecord, StationRecordView};

verus! {

/// The equality constraints a request supplied: a `Some` field constrains
/// the record field of the same name, a `None` field constrains nothing.
#[derive(Debug, Clone, PartialEq)]
pub struct Filters {
    pub station_type: Option<String>,
    pub transport_type: Option<String>,
    pub country: Option<String>,
    pub region: Option<String>,
    pub settlement: Option<String>,
}

/// The value of a [`Filters`].
pub struct FiltersView {
    pub station_type: Option<Seq<char>>,
    pub transport_type: Option<Seq<char>>,
    pub country: Option<Seq<char>>,
    pub region: Option<Seq<char>>,
    pub settlement: Option<Seq<char>>,
}

impl View for Filters {
    type V = FiltersView;

    open spec fn view(&self) -> FiltersView {
        FiltersView {
            station_type: self.station_type.deep_view(),
            transport_type: self.transport_type.deep_view(),
            country: self.country.deep_view(),
            region: self.region.deep_view(),
            settlement: self.settlement.deep_view(),
        }
    }
}

impl Filters {
    /// Filters that constrain nothing: every record matches.
    pub fn none() -> (f: Filters)
        ensures
            f@ == spec_no_filters(),
    {
        Filters {
            station_type: None,
            transport_type: None,
            country: None,
            region: None,
            settlement: None,
        }
    }
}

/// The absent filter set.
pub open spec fn spec_no_filters() -> FiltersView {
    FiltersView {
        station_type: None,
        transport_type: None,
        country: None,
        region: None,
        settlement: None,
    }
}

/// A record matches iff it equals every supplied filter value on the
/// corresponding field; an unsupplied key imposes no constraint.
pub open spec fn spec_matches(r: StationRecordView, f: FiltersView) -> bool {
    &&& match f.station_type {
        Some(v) => r.station_type == v,
        None => true,
    }
    &&& match f.transport_type {
        Some(v) => r.transport_type == Some(v),
        None => true,
    }
    &&& match f.country {
        Some(v) => r.country == v,
        None => true,
    }
    &&& match f.region {
        Some(v) => r.region == v,
        None => true,
    }
    &&& match f.settlement {
        Some(v) => r.settlement == v,
        None => true,
    }
}

/// Whether `r` matches every constraint in `f`.
pub fn matches_filters(r: &StationRecord, f: &Filters) -> (b: bool)
    ensures
        b == spec_matches(r@, f@),
{
    let station_type_ok = match &f.station_type {
        Some(v) => r.station_type == *v,
        None => true,
    };
    let transport_type_ok = match &f.transport_type {
        Some(v) => match &r.transport_type {
            Some(t) => *t == *v,
            None => false,
        },
        None => true,
    };
    let country_ok = match &f.country {
        Some(v) => r.country == *v,
        None => true,
    };
    let region_ok = match &f.region {
        Some(v) => r.region == *v,
        None => true,
    };
    let settlement_ok = match &f.settlement {
        Some(v) => r.settlement == *v,
        None => true,
    };
    station_type_ok && transport_type_ok && country_ok && region_ok && settlement_ok
}

/// The records that match every supplied filter, in their original order.
pub open spec fn spec_apply_filters(
    records: Seq<StationRecordView>,
    f: FiltersView,
) -> Seq<StationRecordView> {
    records.filter(|r: StationRecordView| spec_matches(r, f))
}

/// Filtering after appending one element keeps or drops exactly that
/// element.
proof fn lemma_filter_push<A>(s: Seq<A>, x: A, pred: spec_fn(A) -> bool)
    ensures
        s.push(x).filter(pred) == (if pred(x) {
            s.filter(pred).push(x)
        } else {
            s.filter(pred)
        }),
{
    reveal(Seq::filter);
    assert(s.push(x).drop_last() =~= s);
    assert(s.push(x).last() == x);
}

/// Keeps the records that match every supplied filter, in order.
pub fn apply_filters(records: Vec<StationRecord>, f: &Filters) -> (out: Vec<StationRecord>)
    ensures
        out.deep_view() == spec_apply_filters(records.deep_view(), f@),
{
    let ghost pred = |r: StationRecordView| spec_matches(r, f@);
    let ghost orig = records.deep_view();
    let mut rest = records;
    let ghost mut done: Seq<StationRecordView> = Seq::empty();
    let mut out: Vec<StationRecord> = Vec::new();
    proof {
        assert(orig =~= done + rest.deep_view());
    }
    while rest.len() > 0
        invariant
            pred == (|r: StationRecordView| spec_matches(r, f@)),
            orig == done + rest.deep_view(),
            out.deep_view() == done.filter(pred),
        decreases rest.len(),
    {
        let ghost rest_prev = rest.deep_view();
        let ghost out_prev = out.deep_view();
        let r = rest.remove(0);
        let keep = matches_filters(&r, f);
        if keep {
            out.push(r);
        }
        proof {
            assert(rest.deep_view() =~= rest_prev.drop_first());
            lemma_filter_push(done, r@, pred);
            if keep {
                assert(out.deep_view() =~= out_prev.push(r@));
            }
            done = done.push(r@);
            assert(orig =~= done + rest.deep_view());
        }
    }
    proof {
        assert(orig =~= done);
    }
    out
}

/// Filter-composition law: a record is in the filtered output iff it is one
/// of the input records and it matches every supplied filter key by exact
/// equality; unsupplied keys impose no constraint.
pub proof fn lemma_filter_composition(
    records: Seq<StationRecordView>,
    f: FiltersView,
    rec: StationRecordView,
)
    ensures
        spec_apply_filters(records, f).contains(rec) <==> (records.contains(rec) && spec_matches(
            rec,
            f,
        )),
{
    let pred = |r: StationRecordView| spec_matches(r, f);
    if spec_apply_filters(records, f).contains(rec) {
        records.lemma_filter_contains_rev(pred, rec);
        let j = choose|j: int|
            0 <= j < records.filter(pred).len() && records.filter(pred)[j] == rec;
        records.lemma_filter_pred(pred, j);
    }
    if records.contains(rec) && spec_matches(rec, f) {
        let i = choose|i: int| 0 <= i < records.len() && records[i] == rec;
        records.lemma_filter_contains(pred, i);
    }
}

/// The number of pages `total` records occupy at `page_size` records a
/// page: the least number of pages that hold them all.
pub open spec fn spec_total_pages(total: int, page_size: int) -> int
    recommends
        total >= 0,
        page_size >= 1,
{
    (total + page_size - 1) / page_size
}

/// How many pages `total_count` records fill at `page_size` a page,
/// rounding the last, partial page up.
pub fn total_pages(total_count: u64, page_size: u64) -> (r: u64)
    requires
        page_size >= 1,
    ensures
        r == spec_total_pages(total_count as int, page_size as int),
{
    let ghost p = page_size as int;
    if total_count == 0 {
        proof {
            lemma_div_multiples_vanish_fancy(0, p - 1, p);
        }
        0
    } else {
        let q = (total_count - 1) / page_size;
        let ghost r = (total_count - 1) as int % p;
        proof {
            lemma_fundamental_div_mod((total_count - 1) as int, p);
            assert(p * (q as int + 1) == p * (q as int) + p) by (nonlinear_arith);
            assert((total_count + page_size - 1) as int == p * (q as int + 1) + r);
            lemma_div_multiples_vanish_fancy(q as int + 1, r, p);
        }
        q + 1
    }
}

/// The slice of `s` that page `page` shows at `page_size` records a page:
/// records `(page-1)*page_size` up to but not including `page*page_size`,
/// clipped to the end; a page past the end shows nothing.
pub open spec fn spec_page_slice(
    s: Seq<StationRecordView>,
    page: int,
    page_size: int,
) -> Seq<StationRecordView>
    recommends
        page >= 1,
        page_size >= 1,
{
    let start = (page - 1) * page_size;
    if start >= s.len() {
        Seq::empty()
    } else if start + page_size <= s.len() {
        s.subrange(start, start + page_size)
    } else {
        s.subrange(start, s.len() as int)
    }
}

/// Cuts the requested page out of the record list.
pub fn page_slice(records: Vec<StationRecord>, page: u64, page_size: u64) -> (out: Vec<
    StationRecord,
>)
    requires
        page >= 1,
        page_size >= 1,
    ensures
        out.deep_view() == spec_page_slice(records.deep_view(), page as int, page_size as int),
{
    let ghost orig = records.deep_view();
    let ghost start_spec = (page - 1) as int * page_size as int;
    let len = records.len();
    match (page - 1).checked_mul(page_size) {
        None => {
            proof {
                assert(start_spec > u64::MAX);
                assert(orig.len() <= usize::MAX <= u64::MAX);
            }
            Vec::new()
        },
        Some(start) => {
            if start >= len as u64 {
                proof {
                    assert(orig.len() == len as int);
                }
                Vec::new()
            } else {
                let mut rest = records;
                let mut tail = rest.split_off(start as usize);
                let count: usize = if page_size <= tail.len() as u64 {
                    page_size as usize
                } else {
                    tail.len()
                };
                tail.truncate(count);
                proof {
                    assert(tail.deep_view() =~= spec_page_slice(
                        orig,
                        page as int,
                        page_size as int,
                    ));
                }
                tail
            }
        },
    }
}

/// Pagination law: a page past the last one shows nothing.  With
/// `page_size` records a page, `total` records fill
/// `ceil(total / page_size)` pages, and any later page's slice is empty.
pub proof fn lemma_page_beyond_bound(s: Seq<StationRecordView>, page: int, page_size: int)
    requires
        page_size >= 1,
        page > spec_total_pages(s.len() as int, page_size),
    ensures
        spec_page_slice(s, page, page_size) == Seq::<StationRecordView>::empty(),
{
    let total = s.len() as int;
    let pages = spec_total_pages(total, page_size);
    lemma_fundamental_div_mod(total + page_size - 1, page_size);
    assert(page_size * pages >= total);
    assert((page - 1) * page_size >= pages * page_size) by {
        lemma_mul_inequality(pages, page - 1, page_size);
    }
    assert((page - 1) * page_size >= total);
}

/// What the query engine answers: the requested page of the matching
/// records, how many pages there are in all, and which page this is.
#[derive(Debug, Clone, PartialEq)]
pub struct StationResponse {
    pub stations: Vec<StationRecord>,
    pub total_pages: u64,
    pub current_page: u64,
}

/// Answers a parsed query against the full record list: keeps the records
/// that match every supplied filter, counts the pages they fill, and cuts
/// out the requested page.  A page past the end yields an empty record
/// list with valid metadata.
pub fn execute_query(records: Vec<StationRecord>, page: u64, page_size: u64, f: &Filters) -> (resp:
    StationResponse)
    requires
        page >= 1,
        page_size >= 1,
    ensures
        ({
            let matching = spec_apply_filters(records.deep_view(), f@);
            &&& resp.stations.deep_view() == spec_page_slice(
                matching,
                page as int,
                page_size as int,
            )
            &&& resp.total_pages == spec_total_pages(matching.len() as int, page_size as int)
            &&& resp.current_page == page
        }),
{
    let matching = apply_filters(records, f);
    let pages = total_pages(matching.len() as u64, page_size);
    let stations = page_slice(matching, page, page_size);
    StationResponse { stations, total_pages: pages, current_page: page }
}

} // verus!
