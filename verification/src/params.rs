//! Parsing of a request's raw query string into filter and pagination
//! parameters.
//!
//! The string is split on `&` into tokens; a token with exactly one `=`
//! supplies a key and a value, any other token is ignored.  Unrecognized
//! keys are ignored.  `page` and `page_size` take decimal values; a value
//! that does not parse, or that is zero, falls back to the key's default
//! (page 1, ten records a page).  The five filter keys take the value as
//! an exact-equality constraint.

use vstd::prelude::*;

use crate::query::{
    execute_query, spec_apply_filters, spec_page_slice, spec_total_pages, Filters, FiltersView,
    StationResponse,
};
use crate::record::StationRecord;

verus! {

/// The parameters a request supplied, after defaults: a 1-based page, a
/// positive page size, and the filter constraints.
#[derive(Debug, Clone, PartialEq)]
pub struct Query {
    pub page: u64,
    pub page_size: u64,
    pub filters: Filters,
}

/// The value of a [`Query`].
pub struct QueryView {
    pub page: u64,
    pub page_size: u64,
    pub filters: FiltersView,
}

impl View for Query {
    type V = QueryView;

    open spec fn view(&self) -> QueryView {
        QueryView { page: self.page, page_size: self.page_size, filters: self.filters@ }
    }
}

/// The query no parameters describe: first page, ten records a page, no
/// constraints.
pub open spec fn spec_default_query() -> QueryView {
    QueryView { page: 1, page_size: 10, filters: crate::query::spec_no_filters() }
}

/// Splitting on a separator, with `cur` the part of the current piece read
/// so far.
pub open spec fn spec_split_from(s: Seq<char>, sep: char, cur: Seq<char>) -> Seq<Seq<char>>
    decreases s.len(),
{
    if s.len() == 0 {
        seq![cur]
    } else if s[0] == sep {
        seq![cur] + spec_split_from(s.drop_first(), sep, Seq::empty())
    } else {
        spec_split_from(s.drop_first(), sep, cur.push(s[0]))
    }
}

/// The pieces of `s` between occurrences of `sep`, in order.  The empty
/// string has one piece, the empty one; `n` separators delimit `n + 1`
/// pieces, any of which may be empty.
pub open spec fn spec_split(s: Seq<char>, sep: char) -> Seq<Seq<char>> {
    spec_split_from(s, sep, Seq::empty())
}

/// Splits `s` at every occurrence of `sep`.
pub fn split_str<'a>(s: &'a str, sep: char) -> (tokens: Vec<&'a str>)
    ensures
        tokens.deep_view() == spec_split(s@, sep),
{
    let n = s.unicode_len();
    let mut tokens: Vec<&'a str> = Vec::new();
    let mut start: usize = 0;
    let mut i: usize = 0;
    proof {
        assert(s@.skip(0) =~= s@);
        assert(s@.subrange(0, 0) =~= Seq::<char>::empty());
        assert(tokens.deep_view() + spec_split_from(s@, sep, Seq::empty()) =~= spec_split_from(
            s@,
            sep,
            Seq::empty(),
        ));
    }
    while i < n
        invariant
            start <= i <= n,
            n == s@.len(),
            spec_split(s@, sep) == tokens.deep_view() + spec_split_from(
                s@.skip(i as int),
                sep,
                s@.subrange(start as int, i as int),
            ),
        decreases n - i,
    {
        let ghost toks_prev = tokens.deep_view();
        let ghost cur = s@.subrange(start as int, i as int);
        let c = s.get_char(i);
        proof {
            assert(s@.skip(i as int)[0] == s@[i as int]);
            assert(s@.skip(i as int).drop_first() =~= s@.skip(i as int + 1));
        }
        if c == sep {
            let piece = s.substring_char(start, i);
            tokens.push(piece);
            start = i + 1;
            proof {
                assert(tokens.deep_view() =~= toks_prev.push(cur));
                assert(spec_split_from(s@.skip(i as int), sep, cur) == seq![cur]
                    + spec_split_from(s@.skip(i as int + 1), sep, Seq::empty()));
                assert(s@.subrange(i as int + 1, i as int + 1) =~= Seq::<char>::empty());
                assert(tokens.deep_view() + spec_split_from(
                    s@.skip(i as int + 1),
                    sep,
                    Seq::empty(),
                ) =~= toks_prev + spec_split_from(s@.skip(i as int), sep, cur));
            }
        } else {
            proof {
                assert(spec_split_from(s@.skip(i as int), sep, cur) == spec_split_from(
                    s@.skip(i as int + 1),
                    sep,
                    cur.push(s@[i as int]),
                ));
                assert(cur.push(s@[i as int]) =~= s@.subrange(start as int, i as int + 1));
            }
        }
        i = i + 1;
    }
    let last = s.substring_char(start, n);
    tokens.push(last);
    proof {
        assert(s@.skip(n as int) =~= Seq::<char>::empty());
        assert(tokens.deep_view() =~= spec_split(s@, sep));
    }
    tokens
}

/// A decimal digit.
pub open spec fn is_digit(c: char) -> bool {
    48 <= c as u32 <= 57
}

/// The value of a decimal digit.
pub open spec fn digit_val(c: char) -> int {
    c as u32 - 48
}

/// Every character is a decimal digit.
pub open spec fn all_digits(s: Seq<char>) -> bool {
    forall|i: int| 0 <= i < s.len() ==> is_digit(#[trigger] s[i])
}

/// The number the digit string denotes, most significant digit first.
pub open spec fn digits_value(s: Seq<char>) -> int
    decreases s.len(),
{
    if s.len() == 0 {
        0
    } else {
        digits_value(s.drop_last()) * 10 + digit_val(s.last())
    }
}

/// A digit string denotes a nonnegative number.
proof fn lemma_digits_value_nonneg(s: Seq<char>)
    requires
        all_digits(s),
    ensures
        digits_value(s) >= 0,
    decreases s.len(),
{
    if s.len() > 0 {
        assert(all_digits(s.drop_last()));
        lemma_digits_value_nonneg(s.drop_last());
    }
}

/// A digit string denotes at least what any prefix of it denotes.
proof fn lemma_digits_value_prefix(s: Seq<char>, i: int)
    requires
        all_digits(s),
        0 <= i <= s.len(),
    ensures
        digits_value(s.take(i)) <= digits_value(s),
    decreases s.len() - i,
{
    if i == s.len() {
        assert(s.take(i) =~= s);
    } else {
        assert(s.take(i + 1).drop_last() =~= s.take(i));
        assert(all_digits(s.take(i)));
        lemma_digits_value_nonneg(s.take(i));
        assert(digits_value(s.take(i + 1)) == digits_value(s.take(i)) * 10 + digit_val(
            s.take(i + 1).last(),
        ));
        lemma_digits_value_prefix(s, i + 1);
    }
}

/// What a value string parses to: the denoted number, if the string is
/// nonempty, all digits, and the number fits in 64 bits; nothing otherwise.
pub open spec fn spec_parse_u64(s: Seq<char>) -> Option<u64> {
    if s.len() > 0 && all_digits(s) && digits_value(s) <= u64::MAX {
        Some(digits_value(s) as u64)
    } else {
        None
    }
}

/// Parses a nonempty, all-decimal-digit string into the number it denotes;
/// anything else, including a number too large for 64 bits, parses to
/// nothing.
pub fn parse_u64(s: &str) -> (r: Option<u64>)
    ensures
        r == spec_parse_u64(s@),
{
    let n = s.unicode_len();
    if n == 0 {
        return None;
    }
    let mut acc: u64 = 0;
    let mut i: usize = 0;
    while i < n
        invariant
            i <= n,
            n == s@.len(),
            n > 0,
            all_digits(s@.take(i as int)),
            acc == digits_value(s@.take(i as int)),
        decreases n - i,
    {
        let c = s.get_char(i);
        let code = c as u32;
        proof {
            assert(s@.take(i as int + 1).drop_last() =~= s@.take(i as int));
            assert(s@.take(i as int + 1).last() == s@[i as int]);
        }
        if code < 48 || code > 57 {
            proof {
                assert(!is_digit(s@[i as int]));
            }
            return None;
        }
        let d = (code - 48) as u64;
        let next = match acc.checked_mul(10) {
            Some(x) => x.checked_add(d),
            None => None,
        };
        match next {
            Some(x) => {
                acc = x;
            },
            None => {
                proof {
                    assert(digits_value(s@.take(i as int + 1)) > u64::MAX);
                    if all_digits(s@) {
                        lemma_digits_value_prefix(s@, i as int + 1);
                    }
                }
                return None;
            },
        }
        i = i + 1;
    }
    proof {
        assert(s@.take(n as int) =~= s@);
    }
    Some(acc)
}

/// The page a `page=` value selects: the denoted number if it is a valid
/// 1-based index, the default first page otherwise.
pub open spec fn spec_page_or_default(v: Seq<char>) -> u64 {
    match spec_parse_u64(v) {
        Some(n) => if n >= 1 {
            n
        } else {
            1
        },
        None => 1,
    }
}

/// The page size a `page_size=` value selects: the denoted number if it is
/// positive, the default of ten otherwise — zero would make pages
/// meaningless, so it falls back like an unparseable value.
pub open spec fn spec_page_size_or_default(v: Seq<char>) -> u64 {
    match spec_parse_u64(v) {
        Some(n) => if n >= 1 {
            n
        } else {
            10
        },
        None => 10,
    }
}

/// What one `key=value` token contributes to the query: a recognized key
/// sets its parameter, anything else changes nothing.  A token without
/// exactly one `=` is ignored.
pub open spec fn spec_apply_token(q: QueryView, tok: Seq<char>) -> QueryView {
    let parts = spec_split(tok, '=');
    if parts.len() == 2 {
        let key = parts[0];
        let value = parts[1];
        if key == "page"@ {
            QueryView { page: spec_page_or_default(value), ..q }
        } else if key == "page_size"@ {
            QueryView { page_size: spec_page_size_or_default(value), ..q }
        } else if key == "station_type"@ {
            QueryView { filters: FiltersView { station_type: Some(value), ..q.filters }, ..q }
        } else if key == "transport_type"@ {
            QueryView { filters: FiltersView { transport_type: Some(value), ..q.filters }, ..q }
        } else if key == "country"@ {
            QueryView { filters: FiltersView { country: Some(value), ..q.filters }, ..q }
        } else if key == "region"@ {
            QueryView { filters: FiltersView { region: Some(value), ..q.filters }, ..q }
        } else if key == "settlement"@ {
            QueryView { filters: FiltersView { settlement: Some(value), ..q.filters }, ..q }
        } else {
            q
        }
    } else {
        q
    }
}

/// The query the tokens build up from `q`, applied left to right.
pub open spec fn spec_parse_tokens(toks: Seq<Seq<char>>, q: QueryView) -> QueryView
    decreases toks.len(),
{
    if toks.len() == 0 {
        q
    } else {
        spec_parse_tokens(toks.drop_first(), spec_apply_token(q, toks[0]))
    }
}

/// The query a raw query string denotes.
pub open spec fn spec_parse_query(s: Seq<char>) -> QueryView {
    spec_parse_tokens(spec_split(s, '&'), spec_default_query())
}

/// Whether two strings hold the same characters.
fn str_eq(a: &str, b: &str) -> (r: bool)
    ensures
        r == (a@ == b@),
{
    let sa = a.to_owned();
    let sb = b.to_owned();
    sa == sb
}

/// Applies one `key=value` token to the query.
fn apply_token(q: Query, tok: &str) -> (r: Query)
    ensures
        r@ == spec_apply_token(q@, tok@),
        q.page >= 1 ==> r.page >= 1,
        q.page_size >= 1 ==> r.page_size >= 1,
{
    let parts = split_str(tok, '=');
    if parts.len() != 2 {
        return q;
    }
    let key = parts[0];
    let value = parts[1];
    proof {
        assert(parts.deep_view()[0] == key@);
        assert(parts.deep_view()[1] == value@);
    }
    if str_eq(key, "page") {
        let page = match parse_u64(value) {
            Some(n) => if n >= 1 {
                n
            } else {
                1
            },
            None => 1,
        };
        Query { page, page_size: q.page_size, filters: q.filters }
    } else if str_eq(key, "page_size") {
        let page_size = match parse_u64(value) {
            Some(n) => if n >= 1 {
                n
            } else {
                10
            },
            None => 10,
        };
        Query { page: q.page, page_size, filters: q.filters }
    } else if str_eq(key, "station_type") {
        Query {
            page: q.page,
            page_size: q.page_size,
            filters: Filters { station_type: Some(value.to_owned()), ..q.filters },
        }
    } else if str_eq(key, "transport_type") {
        Query {
            page: q.page,
            page_size: q.page_size,
            filters: Filters { transport_type: Some(value.to_owned()), ..q.filters },
        }
    } else if str_eq(key, "country") {
        Query {
            page: q.page,
            page_size: q.page_size,
            filters: Filters { country: Some(value.to_owned()), ..q.filters },
        }
    } else if str_eq(key, "region") {
        Query {
            page: q.page,
            page_size: q.page_size,
            filters: Filters { region: Some(value.to_owned()), ..q.filters },
        }
    } else if str_eq(key, "settlement") {
        Query {
            page: q.page,
            page_size: q.page_size,
            filters: Filters { settlement: Some(value.to_owned()), ..q.filters },
        }
    } else {
        q
    }
}

/// Parses a raw query string into filter and pagination parameters,
/// falling back to each key's default where a value is unparseable and
/// ignoring what is not recognized.  The result always has a valid page
/// and page size.
pub fn parse_query(raw: &str) -> (q: Query)
    ensures
        q@ == spec_parse_query(raw@),
        q.page >= 1,
        q.page_size >= 1,
{
    let tokens = split_str(raw, '&');
    let mut q = Query { page: 1, page_size: 10, filters: Filters::none() };
    let mut i: usize = 0;
    proof {
        assert(q@ == spec_default_query());
        assert(tokens.deep_view().skip(0) =~= tokens.deep_view());
    }
    while i < tokens.len()
        invariant
            i <= tokens.len(),
            tokens.deep_view() == spec_split(raw@, '&'),
            spec_parse_query(raw@) == spec_parse_tokens(tokens.deep_view().skip(i as int), q@),
            q.page >= 1,
            q.page_size >= 1,
        decreases tokens.len() - i,
    {
        let ghost toks = tokens.deep_view();
        proof {
            assert(toks.skip(i as int)[0] == toks[i as int]);
            assert(toks.skip(i as int).drop_first() =~= toks.skip(i as int + 1));
        }
        q = apply_token(q, tokens[i]);
        i = i + 1;
    }
    proof {
        assert(tokens.deep_view().skip(tokens.len() as int) =~= Seq::<Seq<char>>::empty());
    }
    q
}

/// The query engine end to end: parses the raw query string and answers it
/// against the full record list — the page of matching records the parsed
/// parameters select, the number of pages the matches fill, and the page
/// index answered.
pub fn query_stations(records: Vec<StationRecord>, raw: &str) -> (resp: StationResponse)
    ensures
        ({
            let q = spec_parse_query(raw@);
            let matching = spec_apply_filters(records.deep_view(), q.filters);
            &&& resp.stations.deep_view() == spec_page_slice(
                matching,
                q.page as int,
                q.page_size as int,
            )
            &&& resp.total_pages == spec_total_pages(matching.len() as int, q.page_size as int)
            &&& resp.current_page == q.page
        }),
{
    let q = parse_query(raw);
    execute_query(records, q.page, q.page_size, &q.filters)
}

} // verus!
