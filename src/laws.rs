//! Properties that hold across calls of the library.
use vstd::prelude::*;

use crate::areas::distinct_areas;
use crate::structs::{Area, OutageRecord, PowerOutage, SearchResult, records};
use crate::text::{lemma_strictly_sorted_unique, strictly_sorted};
use crate::matching::{folded_subsequence, pattern_error_of};
use crate::text::search_form;
use crate::v0_0_1::{hits, in_area, matching_areas, rank, scored};

verus! {

/// Listing areas depends on the feed and the pattern alone: two lists that both meet the
/// contract of `list_areas` for the same feed and pattern are the same list.
pub proof fn lemma_area_listing_determined(
    all: Seq<OutageRecord>,
    pattern: Seq<char>,
    a: Seq<Seq<char>>,
    b: Seq<Seq<char>>,
)
    requires
        strictly_sorted(a),
        strictly_sorted(b),
        a.to_set() == matching_areas(all, pattern),
        b.to_set() == matching_areas(all, pattern),
    ensures
        a == b,
{
    lemma_strictly_sorted_unique(a, b);
}

/// The outages of an area depend on the feed and the name alone.
pub proof fn lemma_area_outages_determined(
    all: Seq<OutageRecord>,
    name: Seq<char>,
    a: Seq<PowerOutage>,
    b: Seq<PowerOutage>,
)
    requires
        records(a) == in_area(all, name),
        records(b) == in_area(all, name),
    ensures
        records(a) == records(b),
{
}

/// A fuzzy search depends on the feed and the query alone: same scores, same areas, same
/// order.
pub proof fn lemma_search_determined(
    all: Seq<OutageRecord>,
    query: Seq<char>,
    a: Seq<SearchResult<Area>>,
    b: Seq<SearchResult<Area>>,
)
    requires
        hits(a) == rank(scored(distinct_areas(all), query)),
        hits(b) == rank(scored(distinct_areas(all), query)),
    ensures
        a.len() == b.len(),
        forall|i: int|
            0 <= i < a.len() ==> (#[trigger] a[i]).score == b[i].score && a[i].result.name@
                == b[i].result.name@,
{
    assert(hits(a).len() == a.len());
    assert(hits(b).len() == b.len());
    assert forall|i: int| 0 <= i < a.len() implies (#[trigger] a[i]).score == b[i].score
        && a[i].result.name@ == b[i].result.name@ by {
        assert(hits(a)[i] == hits(b)[i]);
    }
}

/// A listing that fails fails the same way every time: its reason is the regex crate's
/// error text for the pattern.
pub proof fn lemma_failed_listing_determined(pattern: Seq<char>, a: Seq<char>, b: Seq<char>)
    requires
        a == pattern_error_of(pattern),
        b == pattern_error_of(pattern),
    ensures
        a == b,
{
}

/// A query whose search form occurs, in order, in the search form of no area name finds
/// nothing.
pub proof fn lemma_unmatched_query_finds_nothing(
    all: Seq<OutageRecord>,
    query: Seq<char>,
    r: Seq<SearchResult<Area>>,
)
    requires
        forall|i: int|
            0 <= i < r.len() ==> distinct_areas(all).contains((#[trigger] r[i]).result.name@)
                && folded_subsequence(search_form(query), search_form(r[i].result.name@)),
        forall|n: Seq<char>|
            distinct_areas(all).contains(n) ==> !folded_subsequence(
                search_form(query),
                #[trigger] search_form(n),
            ),
    ensures
        r.len() == 0,
{
    if r.len() > 0 {
        let n = r[0].result.name@;
        assert(distinct_areas(all).contains(n));
        assert(!folded_subsequence(search_form(query), search_form(n)));
    }
}

} // verus!
