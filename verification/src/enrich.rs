//! Per-entity enrichment: parsing one station's web page, and aggregating
//! the outcomes of a fan-out over an identifier range.
//!
//! Each identifier in the range gets one independent page fetch; the page
//! is parsed with fixed structural selectors for a title node and an
//! address node, and yields a result only when both are found.  The caller
//! runs the fetches — concurrently if it likes — collects one outcome per
//! identifier, and [`collect_results`] keeps the successful ones.  Partial
//! failure is expected: a lookup that fails merely drops its identifier
//! from the aggregate.

use vstd::multiset::{group_multiset_axioms, Multiset};
use vstd::prelude::*;
use vstd::seq_lib::group_to_multiset_ensures;
use vstd::string::StringSliceAdditionalSpecFns;

verus! {

/// One successfully enriched station: the title and address its page shows.
#[derive(Debug, Clone, PartialEq)]
pub struct EnrichmentResult {
    pub station_id: u32,
    pub title: String,
    pub address: String,
}

/// The value of an [`EnrichmentResult`].
pub struct EnrichmentResultView {
    pub station_id: u32,
    pub title: Seq<char>,
    pub address: Seq<char>,
}

impl View for EnrichmentResult {
    type V = EnrichmentResultView;

    open spec fn view(&self) -> EnrichmentResultView {
        EnrichmentResultView {
            station_id: self.station_id,
            title: self.title@,
            address: self.address@,
        }
    }
}

impl DeepView for EnrichmentResult {
    type V = EnrichmentResultView;

    open spec fn deep_view(&self) -> EnrichmentResultView {
        self.view()
    }
}

/// The concatenated text of the first element of `html` — parsed as an HTML
/// document — that the CSS selector `selector` matches; nothing when
/// nothing matches or the selector is invalid.  A function of the two
/// strings alone.
pub uninterp spec fn selected_text(html: Seq<char>, selector: Seq<char>) -> Option<Seq<char>>;

/// Relies on scraper's `Html::parse_document`, `Selector::parse`,
/// `Html::select` and `ElementRef::text`: parses `html` as a document,
/// finds the first element matching `selector`, and concatenates its text
/// nodes.  All of it computes on the two strings alone, so the result is
/// named by [`selected_text`].
///
/// `Html::parse_document` copies the input into tendril buffers, whose
/// length must fit in 32 bits; a longer document panics there, so the
/// precondition keeps such input out.
#[verifier::external_body]
fn select_first_text(html: &str, selector: &str) -> (r: Option<String>)
    requires
        html.spec_bytes().len() <= 0xFFFF_FFFF,
    ensures
        r.deep_view() == selected_text(html@, selector@),
{
    let document = scraper::Html::parse_document(html);
    let parsed = match scraper::Selector::parse(selector) {
        Ok(sel) => sel,
        Err(_) => return None,
    };
    document.select(&parsed).next().map(|element| element.text().collect::<Vec<_>>().concat())
}

/// The fixed structural selector of the page's title node.
pub open spec fn title_selector() -> Seq<char> {
    "body > div.body-content > header > div.bread-crumbs-menu.bread-crumbs-menu-img.bread-crumbs-menu-img_index > section > div.header-custom__title"@
}

/// The fixed structural selector of the page's address node.
pub open spec fn address_selector() -> Seq<char> {
    "body > div.body-content > header > div.bread-crumbs-menu.bread-crumbs-menu-img.bread-crumbs-menu-img_index > section > div.header-custom__note"@
}

/// What one page yields for one identifier: a result exactly when the page
/// has both a title node and an address node under the fixed selectors.
pub open spec fn spec_extract(station_id: u32, html: Seq<char>) -> Option<EnrichmentResultView> {
    match (selected_text(html, title_selector()), selected_text(html, address_selector())) {
        (Some(title), Some(address)) => Some(
            EnrichmentResultView { station_id, title, address },
        ),
        _ => None,
    }
}

/// Parses one station's page: a result exactly when both a title-bearing
/// and an address-bearing node are found under the fixed structural
/// selectors, nothing otherwise.
///
/// A page longer than the HTML parser's buffer limit of 2^32 - 1 bytes is
/// not parsed: the lookup yields nothing, as any other failed lookup does.
pub fn extract_station_data(station_id: u32, html: &str) -> (r: Option<EnrichmentResult>)
    ensures
        html.spec_bytes().len() <= 0xFFFF_FFFF ==> r.deep_view() == spec_extract(
            station_id,
            html@,
        ),
        html.spec_bytes().len() > 0xFFFF_FFFF ==> r is None,
{
    let page_bytes = html.as_bytes();
    if page_bytes.len() > 0xFFFF_FFFF {
        return None;
    }
    let title = select_first_text(
        html,
        "body > div.body-content > header > div.bread-crumbs-menu.bread-crumbs-menu-img.bread-crumbs-menu-img_index > section > div.header-custom__title",
    );
    let address = select_first_text(
        html,
        "body > div.body-content > header > div.bread-crumbs-menu.bread-crumbs-menu-img.bread-crumbs-menu-img_index > section > div.header-custom__note",
    );
    match (title, address) {
        (Some(t), Some(a)) => Some(EnrichmentResult { station_id, title: t, address: a }),
        _ => None,
    }
}

/// The successful outcomes, in the order they stand in `outcomes`.
pub open spec fn spec_collect(
    outcomes: Seq<Option<EnrichmentResultView>>,
) -> Seq<EnrichmentResultView> {
    outcomes.filter_map(|o: Option<EnrichmentResultView>| o)
}

/// How many outcomes succeeded.
pub open spec fn spec_success_count(outcomes: Seq<Option<EnrichmentResultView>>) -> int
    decreases outcomes.len(),
{
    if outcomes.len() == 0 {
        0int
    } else {
        spec_success_count(outcomes.drop_last()) + (if outcomes.last() is Some {
            1int
        } else {
            0int
        })
    }
}

/// Keeps the successful outcomes, one per resolved identifier, in the
/// order the caller collected them.
pub fn collect_results(outcomes: Vec<Option<EnrichmentResult>>) -> (out: Vec<EnrichmentResult>)
    ensures
        out.deep_view() == spec_collect(outcomes.deep_view()),
{
    let ghost f = |o: Option<EnrichmentResultView>| o;
    let ghost all = outcomes.deep_view();
    let mut rest = outcomes;
    let mut out: Vec<EnrichmentResult> = Vec::new();
    let mut i: usize = 0;
    let total = rest.len();
    proof {
        assert(all.len() == total as int);
        assert(all.skip(0) =~= all);
        assert(all.take(0).filter_map(f) =~= Seq::<EnrichmentResultView>::empty());
    }
    while rest.len() > 0
        invariant
            f == (|o: Option<EnrichmentResultView>| o),
            i + rest.len() == all.len(),
            all.len() <= usize::MAX,
            rest.deep_view() == all.skip(i as int),
            out.deep_view() == all.take(i as int).filter_map(f),
        decreases rest.len(),
    {
        let ghost rest_prev = rest.deep_view();
        let ghost out_prev = out.deep_view();
        let o = rest.remove(0);
        proof {
            assert(o.deep_view() == rest_prev[0]);
            assert(rest_prev[0] == all[i as int]);
            assert(rest.deep_view() =~= rest_prev.drop_first());
            assert(rest_prev.drop_first() =~= all.skip(i as int + 1));
            all.lemma_filter_map_take_succ(f, i as int);
        }
        match o {
            Some(r) => {
                out.push(r);
                proof {
                    assert(all[i as int] == Some(r@));
                    assert(out.deep_view() =~= out_prev.push(r@));
                    assert(out.deep_view() =~= all.take(i as int + 1).filter_map(f));
                }
            },
            None => {
                proof {
                    assert(all[i as int] is None);
                    assert(out.deep_view() =~= all.take(i as int + 1).filter_map(f));
                }
            },
        }
        i = i + 1;
    }
    proof {
        assert(all.take(all.len() as int) =~= all);
    }
    out
}

/// The aggregate keeps exactly the successful outcomes: for `N`
/// identifiers of which `M` succeed, it has exactly `M` entries.
pub proof fn lemma_collect_len(outcomes: Seq<Option<EnrichmentResultView>>)
    ensures
        spec_collect(outcomes).len() == spec_success_count(outcomes),
    decreases outcomes.len(),
{
    if outcomes.len() > 0 {
        lemma_collect_len(outcomes.drop_last());
    }
}

/// How many outcomes succeeded, as a function of the outcomes' multiset
/// alone: everything except the failures.
proof fn lemma_success_count_multiset(outcomes: Seq<Option<EnrichmentResultView>>)
    ensures
        spec_success_count(outcomes) == outcomes.len() - outcomes.to_multiset().count(
            Option::<EnrichmentResultView>::None,
        ),
    decreases outcomes.len(),
{
    broadcast use group_multiset_axioms, group_to_multiset_ensures;

    if outcomes.len() == 0 {
        assert(outcomes.to_multiset() =~= Multiset::<Option<EnrichmentResultView>>::empty());
    } else {
        let rest = outcomes.drop_last();
        lemma_success_count_multiset(rest);
        assert(rest.push(outcomes.last()) =~= outcomes);
        assert(outcomes.to_multiset() =~= rest.to_multiset().insert(outcomes.last()));
    }
}

/// Aggregation is insensitive to completion order: two outcome sequences
/// that are rearrangements of one another — as the same fan-out collected
/// in two different completion orders is — aggregate to the same number of
/// results.
pub proof fn lemma_collect_len_any_order(
    a: Seq<Option<EnrichmentResultView>>,
    b: Seq<Option<EnrichmentResultView>>,
)
    requires
        a.to_multiset() == b.to_multiset(),
    ensures
        spec_collect(a).len() == spec_collect(b).len(),
{
    broadcast use group_to_multiset_ensures;

    lemma_collect_len(a);
    lemma_collect_len(b);
    lemma_success_count_multiset(a);
    lemma_success_count_multiset(b);
    assert(a.len() == a.to_multiset().len());
    assert(b.len() == b.to_multiset().len());
}

/// Advances the shared completion tally by one finished lookup and says
/// whether this completion should be reported: every tenth one is.
pub fn tally_completion(completed: u64) -> (r: (u64, bool))
    requires
        completed < u64::MAX,
    ensures
        r.0 == completed + 1,
        r.1 == (r.0 % 10 == 0),
{
    let next = completed + 1;
    (next, next % 10 == 0)
}

} // verus!
