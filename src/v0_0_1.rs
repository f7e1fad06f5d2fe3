//! The operations of the pinned namespace `v0.0.1`, over already fetched feeds.
use vstd::prelude::*;

use crate::api::{Operation, api_operations};
use crate::areas::{area_names, distinct_area_names, distinct_areas, sort_names};
use crate::feed::{layout_of, schedule_from_table, schedule_rows_outcome};
use crate::matching::{
    compile_pattern, folded_subsequence, fuzzy_score, has_ascii_upper, pattern_compiles, pattern_error_of, pattern_finds,
    pattern_is_match, skim_score,
};
use crate::structs::{Area, Errors, OutageRecord, PowerOutage, RecurringSchedule, SearchResult, records};
use crate::table::{csv_table_of, read_csv};
use crate::text::{search_form, strictly_sorted, to_search_form};

verus! {

/// The operations of this namespace.
pub fn routes() -> (r: Vec<Operation>)
    ensures
        r@ == api_operations(),
{
    let mut r: Vec<Operation> = Vec::new();
    r.push(Operation::FuzzySearch);
    r.push(Operation::ListAllAreas);
    r.push(Operation::ListAreas);
    r.push(Operation::Outages);
    r.push(Operation::Schedules);
    assert(r@ =~= api_operations());
    r
}

// ---------------------------------------------------------------------------------------------
// Outages of one area
// ---------------------------------------------------------------------------------------------

/// The outages of the feed whose area is `name`, in feed order.
pub open spec fn in_area(all: Seq<OutageRecord>, name: Seq<char>) -> Seq<OutageRecord> {
    all.filter(|o: OutageRecord| o.area_name == name)
}

/// An area that the feed names has outages, and all of them are in that area.
pub proof fn lemma_in_area(all: Seq<OutageRecord>, name: Seq<char>)
    ensures
        in_area(all, name).len() > 0 <==> area_names(all).contains(name),
        forall|i: int|
            0 <= i < in_area(all, name).len() ==> (#[trigger] in_area(all, name)[i]).area_name
                == name,
{
    let pred = |o: OutageRecord| o.area_name == name;
    assert forall|i: int| 0 <= i < in_area(all, name).len() implies (#[trigger] in_area(
        all,
        name,
    )[i]).area_name == name by {
        all.lemma_filter_pred(pred, i);
    }
    if area_names(all).contains(name) {
        let k = choose|k: int| 0 <= k < area_names(all).len() && area_names(all)[k] == name;
        all.lemma_filter_contains(pred, k);
    }
    if in_area(all, name).len() > 0 {
        all.lemma_filter_contains_rev(pred, in_area(all, name)[0]);
        let k = choose|k: int| 0 <= k < all.len() && all[k] == in_area(all, name)[0];
        assert(area_names(all)[k] == name);
    }
}

/// The outages of area `area_name`, in feed order. An area that no outage names is an error.
pub fn outages(all: &Vec<PowerOutage>, area_name: &str) -> (r: Result<Vec<PowerOutage>, Errors>)
    ensures
        match r {
            Ok(v) => records(v@) == in_area(records(all@), area_name@) && v@.len() > 0,
            Err(e) => in_area(records(all@), area_name@).len() == 0 && (e matches Errors::NotFound(
                n,
            ) && n@ == area_name@),
        },
        r is Ok <==> area_names(records(all@)).contains(area_name@),
        r matches Ok(v) ==> forall|i: int|
            0 <= i < v@.len() ==> (#[trigger] v@[i]).area_name@ == area_name@,
        (forall|i: int| 0 <= i < all@.len() ==> (#[trigger] all@[i]).wf()) ==> (r matches Ok(v)
            ==> forall|i: int| 0 <= i < v@.len() ==> (#[trigger] v@[i]).wf()),
{
    let target = area_name.to_owned();
    let ghost recs = records(all@);
    let ghost pred = |o: OutageRecord| o.area_name == area_name@;
    let mut out: Vec<PowerOutage> = Vec::new();
    let mut i: usize = 0;
    assert(recs.subrange(0, 0) =~= Seq::<OutageRecord>::empty());
    assert(records(out@) =~= Seq::<OutageRecord>::empty());
    while i < all.len()
        invariant
            i <= all@.len(),
            target@ == area_name@,
            recs == records(all@),
            pred == (|o: OutageRecord| o.area_name == area_name@),
            records(out@) == recs.subrange(0, i as int).filter(pred),
        decreases all@.len() - i,
    {
        let ghost prefix = recs.subrange(0, i as int);
        assert(recs.subrange(0, i as int + 1) =~= prefix.push(all@[i as int]@));
        proof {
            prefix.lemma_filter_push(all@[i as int]@, pred);
        }
        if all[i].area_name == target {
            let ghost before = records(out@);
            out.push(all[i].duplicate());
            assert(records(out@) =~= before.push(all@[i as int]@));
        }
        i = i + 1;
    }
    assert(recs.subrange(0, i as int) =~= recs);
    proof {
        lemma_in_area(recs, area_name@);
        assert forall|j: int| 0 <= j < out@.len() implies (#[trigger] out@[j]).area_name@
            == area_name@ by {
            assert(records(out@)[j] == out@[j]@);
        }
        if forall|k: int| 0 <= k < all@.len() ==> (#[trigger] all@[k]).wf() {
            assert forall|j: int| 0 <= j < out@.len() implies (#[trigger] out@[j]).wf() by {
                let o = records(out@)[j];
                assert(o == out@[j]@);
                recs.lemma_filter_contains_rev(pred, o);
                let k = choose|k: int| 0 <= k < recs.len() && recs[k] == o;
                assert(recs[k] == all@[k]@);
                assert(all@[k].wf());
            }
        }
    }
    if out.len() == 0 {
        return Err(Errors::NotFound(target));
    }
    Ok(out)
}

// ---------------------------------------------------------------------------------------------
// Area listings
// ---------------------------------------------------------------------------------------------

/// The area names of the feed that the regular expression `pattern` matches.
pub open spec fn matching_areas(all: Seq<OutageRecord>, pattern: Seq<char>) -> Set<Seq<char>> {
    Set::new(|n: Seq<char>| area_names(all).contains(n) && pattern_finds(pattern, n))
}

/// The distinct area names that the regular expression `pattern` matches, sorted. A pattern
/// that does not compile is an error.
pub fn list_areas(all: &Vec<PowerOutage>, pattern: &str) -> (r: Result<Vec<String>, Errors>)
    ensures
        r is Ok <==> pattern_compiles(pattern@),
        r matches Err(e) ==> e matches Errors::InvalidPattern { pattern: p, reason } && p@
            == pattern@ && reason@ == pattern_error_of(pattern@),
        r matches Ok(v) ==> strictly_sorted(v.deep_view()) && v.deep_view().to_set()
            == matching_areas(records(all@), pattern@),
        pattern@ == ".*"@ ==> (r matches Ok(v) && v.deep_view().to_set() == area_names(
            records(all@),
        ).to_set()),
{
    let re = match compile_pattern(pattern) {
        Ok(re) => re,
        Err(reason) => {
            return Err(Errors::InvalidPattern { pattern: pattern.to_owned(), reason });
        },
    };
    let names = distinct_area_names(all);
    let ghost all_names = area_names(records(all@));
    let mut kept: Vec<String> = Vec::new();
    let mut i: usize = 0;
    while i < names.len()
        invariant
            i <= names@.len(),
            re.source() == pattern@,
            all_names == area_names(records(all@)),
            names.deep_view().no_duplicates(),
            names.deep_view().to_set() == all_names.to_set(),
            kept.deep_view().no_duplicates(),
            forall|n: Seq<char>| #[trigger]
                kept.deep_view().contains(n) <==> (exists|j: int|
                    0 <= j < i && names.deep_view()[j] == n) && pattern_finds(pattern@, n),
            forall|j: int|
                0 <= j < kept.deep_view().len() ==> exists|m: int|
                    0 <= m < i && names.deep_view()[m] == #[trigger] kept.deep_view()[j],
            pattern@ == ".*"@ ==> forall|j: int|
                0 <= j < i ==> pattern_finds(pattern@, #[trigger] names.deep_view()[j]),
        decreases names@.len() - i,
    {
        let ghost x = names.deep_view()[i as int];
        if pattern_is_match(&re, names[i].as_str()) {
            let ghost before = kept.deep_view();
            kept.push(names[i].clone());
            assert(kept.deep_view() =~= before.push(x));
            assert forall|a: int, b: int|
                0 <= a < b < kept.deep_view().len() implies kept.deep_view()[a] != kept.deep_view()[b] by {
                if b == before.len() {
                    let m = choose|m: int| 0 <= m < i && names.deep_view()[m] == #[trigger] before[a];
                    assert(names.deep_view()[m] != names.deep_view()[i as int]);
                }
            }
            assert forall|j: int|
                0 <= j < kept.deep_view().len() implies exists|m: int|
                    0 <= m < i + 1 && names.deep_view()[m] == #[trigger] kept.deep_view()[j] by {
                if j < before.len() {
                    let m = choose|m: int| 0 <= m < i && names.deep_view()[m] == #[trigger] before[j];
                    assert(names.deep_view()[m] == kept.deep_view()[j]);
                } else {
                    assert(names.deep_view()[i as int] == kept.deep_view()[j]);
                }
            }
            assert forall|n: Seq<char>| #[trigger]
                kept.deep_view().contains(n) <==> (exists|j: int|
                    0 <= j < i + 1 && names.deep_view()[j] == n) && pattern_finds(pattern@, n) by {
                if kept.deep_view().contains(n) {
                    let k = choose|k: int| 0 <= k < kept.deep_view().len() && kept.deep_view()[k] == n;
                    if k < before.len() {
                        assert(before[k] == n);
                        assert(before.contains(n));
                    } else {
                        assert(names.deep_view()[i as int] == n);
                    }
                }
                if (exists|j: int| 0 <= j < i + 1 && names.deep_view()[j] == n) && pattern_finds(pattern@, n) {
                    let j = choose|j: int| 0 <= j < i + 1 && names.deep_view()[j] == n;
                    if j < i {
                        assert(before.contains(n));
                        let k = choose|k: int| 0 <= k < before.len() && before[k] == n;
                        assert(kept.deep_view()[k] == n);
                    } else {
                        assert(kept.deep_view()[before.len() as int] == n);
                    }
                }
            }
        } else {
            assert forall|n: Seq<char>| #[trigger]
                kept.deep_view().contains(n) <==> (exists|j: int|
                    0 <= j < i + 1 && names.deep_view()[j] == n) && pattern_finds(pattern@, n) by {
                if (exists|j: int| 0 <= j < i + 1 && names.deep_view()[j] == n) && pattern_finds(pattern@, n) {
                    let j = choose|j: int| 0 <= j < i + 1 && names.deep_view()[j] == n;
                    assert(j < i);
                }
            }
        }
        i = i + 1;
    }
    proof {
        assert forall|n: Seq<char>|
            kept.deep_view().to_set().contains(n) <==> matching_areas(records(all@), pattern@).contains(n) by {
            if all_names.contains(n) {
                assert(all_names.to_set().contains(n));
                assert(names.deep_view().to_set().contains(n));
            }
            if exists|j: int| 0 <= j < i && names.deep_view()[j] == n {
                let j = choose|j: int| 0 <= j < i && names.deep_view()[j] == n;
                assert(names.deep_view().contains(n));
                assert(names.deep_view().to_set().contains(n));
                assert(all_names.to_set().contains(n));
            }
        }
        assert(kept.deep_view().to_set() =~= matching_areas(records(all@), pattern@));
        if pattern@ == ".*"@ {
            assert forall|n: Seq<char>| all_names.contains(n) implies pattern_finds(pattern@, n) by {
                assert(all_names.to_set().contains(n));
                assert(names.deep_view().to_set().contains(n));
                let j = choose|j: int| 0 <= j < names.deep_view().len() && names.deep_view()[j] == n;
                assert(pattern_finds(pattern@, names.deep_view()[j]));
            }
            assert(kept.deep_view().to_set() =~= all_names.to_set());
        }
    }
    let sorted = sort_names(kept);
    Ok(sorted)
}

/// Every distinct area name of the feed, sorted.
pub fn list_all_areas(all: &Vec<PowerOutage>) -> (r: Result<Vec<String>, Errors>)
    ensures
        r matches Ok(v) && strictly_sorted(v.deep_view()) && v.deep_view().to_set() == area_names(
            records(all@),
        ).to_set(),
{
    list_areas(all, ".*")
}

// ---------------------------------------------------------------------------------------------
// Fuzzy search
// ---------------------------------------------------------------------------------------------

/// What a search result says: its score and the name of the area found.
pub open spec fn hit(r: SearchResult<Area>) -> (i64, Seq<char>) {
    (r.score, r.result.name@)
}

pub open spec fn hits(v: Seq<SearchResult<Area>>) -> Seq<(i64, Seq<char>)> {
    v.map_values(|r: SearchResult<Area>| hit(r))
}

/// The candidate names that the query matches, each with its score, in candidate order. Both
/// sides are compared in search form.
pub open spec fn scored(names: Seq<Seq<char>>, query: Seq<char>) -> Seq<(i64, Seq<char>)>
    decreases names.len(),
{
    if names.len() == 0 {
        Seq::empty()
    } else {
        let prev = scored(names.drop_last(), query);
        match skim_score(search_form(names.last()), search_form(query)) {
            Some(s) => prev.push((s, names.last())),
            None => prev,
        }
    }
}

/// Where an item scoring `score` goes in a list ranked by descending score: after every item
/// that scores at least as much.
pub open spec fn slot(ranked: Seq<(i64, Seq<char>)>, score: i64) -> int
    decreases ranked.len(),
{
    if ranked.len() == 0 {
        0
    } else if ranked[0].0 < score {
        0
    } else {
        1 + slot(ranked.drop_first(), score)
    }
}

/// The items ranked by descending score; items that score the same keep their order.
pub open spec fn rank(items: Seq<(i64, Seq<char>)>) -> Seq<(i64, Seq<char>)>
    decreases items.len(),
{
    if items.len() == 0 {
        Seq::empty()
    } else {
        let r = rank(items.drop_last());
        r.insert(slot(r, items.last().0), items.last())
    }
}

/// A list of scores that never increases.
pub open spec fn descending(s: Seq<(i64, Seq<char>)>) -> bool {
    forall|i: int, j: int| 0 <= i < j < s.len() ==> (#[trigger] s[i]).0 >= (#[trigger] s[j]).0
}

pub proof fn lemma_slot_bounds(ranked: Seq<(i64, Seq<char>)>, score: i64)
    ensures
        0 <= slot(ranked, score) <= ranked.len(),
    decreases ranked.len(),
{
    if ranked.len() > 0 {
        lemma_slot_bounds(ranked.drop_first(), score);
    }
}

proof fn lemma_slot_step(ranked: Seq<(i64, Seq<char>)>, score: i64, k: int)
    requires
        0 <= k < ranked.len(),
        ranked[k].0 >= score,
    ensures
        slot(ranked.skip(k), score) == 1 + slot(ranked.skip(k + 1), score),
{
    assert(ranked.skip(k).drop_first() =~= ranked.skip(k + 1));
}

/// Ranking keeps every scored candidate exactly once: the ranked list is a permutation of
/// the candidates.
pub proof fn lemma_rank_permutes(items: Seq<(i64, Seq<char>)>)
    ensures
        rank(items).to_multiset() == items.to_multiset(),
    decreases items.len(),
{
    broadcast use vstd::seq_lib::group_to_multiset_ensures;

    if items.len() > 0 {
        let prev = items.drop_last();
        lemma_rank_permutes(prev);
        let r = rank(prev);
        lemma_slot_bounds(r, items.last().0);
        vstd::seq_lib::to_multiset_insert(r, slot(r, items.last().0), items.last());
        assert(items =~= prev.push(items.last()));
    }
}

/// The search form of a text holds no ASCII capital.
pub proof fn lemma_search_form_has_no_capitals(s: Seq<char>)
    ensures
        !has_ascii_upper(search_form(s)),
{
    assert forall|i: int| 0 <= i < search_form(s).len() implies !('A' <= #[trigger] search_form(
        s,
    )[i] && search_form(s)[i] <= 'Z') by {
        let c = s[i];
        if 'A' <= c && c <= 'Z' {
            assert(('a' as u32) <= (c as u32) + 32 <= ('z' as u32));
        }
    }
}

/// The score and name of each candidate.
pub open spec fn candidates(v: Seq<(i64, String)>) -> Seq<(i64, Seq<char>)> {
    v.map_values(|c: (i64, String)| (c.0, c.1@))
}

/// Ranks scored area names by descending score, as search results; names that score the same
/// keep their order.
pub fn rank_by_score(scored: Vec<(i64, String)>) -> (r: Vec<SearchResult<Area>>)
    ensures
        hits(r@) == rank(candidates(scored@)),
        hits(r@).to_multiset() == candidates(scored@).to_multiset(),
        descending(hits(r@)),
        forall|i: int| 0 <= i < r@.len() ==> (#[trigger] r@[i]).result.is_name_only(),
{
    let ghost items = candidates(scored@);
    let mut out: Vec<SearchResult<Area>> = Vec::new();
    let mut i: usize = 0;
    assert(items.subrange(0, 0) =~= Seq::<(i64, Seq<char>)>::empty());
    assert(hits(out@) =~= Seq::<(i64, Seq<char>)>::empty());
    while i < scored.len()
        invariant
            i <= scored@.len(),
            items == candidates(scored@),
            hits(out@) == rank(items.subrange(0, i as int)),
            descending(hits(out@)),
            forall|j: int| 0 <= j < out@.len() ==> (#[trigger] out@[j]).result.is_name_only(),
        decreases scored@.len() - i,
    {
        let score = scored[i].0;
        let ghost x = items[i as int];
        let ghost next = items.subrange(0, i as int + 1);
        assert(next.drop_last() =~= items.subrange(0, i as int));
        assert(next.last() == x);
        let ghost h = hits(out@);
        let mut k: usize = 0;
        assert(h.skip(0) =~= h);
        while k < out.len() && out[k].score >= score
            invariant
                k <= out@.len(),
                h == hits(out@),
                slot(h, score) == k + slot(h.skip(k as int), score),
                forall|j: int| 0 <= j < k ==> (#[trigger] h[j]).0 >= score,
            decreases out@.len() - k,
        {
            proof {
                lemma_slot_step(h, score, k as int);
            }
            k = k + 1;
        }
        proof {
            if k < out@.len() {
                assert(h.skip(k as int)[0] == h[k as int]);
            } else {
                assert(h.skip(k as int).len() == 0);
            }
            lemma_slot_bounds(h, score);
        }
        let area = Area::from_name(scored[i].1.clone());
        let ghost before = out@;
        out.insert(k, SearchResult { score, result: area });
        assert(hits(out@) =~= h.insert(k as int, x));
        assert forall|a: int, b: int|
            0 <= a < b < hits(out@).len() implies (#[trigger] hits(out@)[a]).0 >= (
            #[trigger] hits(out@)[b]).0 by {
            if a < k && b > k {
                assert(h[a].0 >= score);
                assert(h[b - 1].0 <= h[k as int].0);
            } else if a == k && b > k {
                assert(h[b - 1].0 <= h[k as int].0);
            } else if a > k {
                assert(h[a - 1].0 >= h[b - 1].0);
            }
        }
        assert forall|j: int| 0 <= j < out@.len() implies (#[trigger] out@[j]).result.is_name_only() by {
            if j < k {
                assert(out@[j] == before[j]);
            } else if j > k {
                assert(out@[j] == before[j - 1]);
            }
        }
        i = i + 1;
    }
    assert(items.subrange(0, i as int) =~= items);
    proof {
        lemma_rank_permutes(items);
    }
    out
}

/// The areas whose names match `query` approximately, best first. Names and query are first
/// brought into search form (ASCII word characters in lower case, anything else a space);
/// areas that do not match at all are left out.
pub fn fuzzy_search(all: &Vec<PowerOutage>, query: &str) -> (r: Vec<SearchResult<Area>>)
    ensures
        hits(r@) == rank(scored(distinct_areas(records(all@)), query@)),
        descending(hits(r@)),
        forall|i: int| 0 <= i < r@.len() ==> (#[trigger] r@[i]).result.is_name_only(),
        forall|i: int|
            0 <= i < r@.len() ==> distinct_areas(records(all@)).contains(
                (#[trigger] r@[i]).result.name@,
            ) && folded_subsequence(search_form(query@), search_form(r@[i].result.name@)),
        forall|n: Seq<char>|
            distinct_areas(records(all@)).contains(n) && folded_subsequence(
                search_form(query@),
                #[trigger] search_form(n),
            ) ==> exists|i: int| 0 <= i < r@.len() && (#[trigger] r@[i]).result.name@ == n,
{
    let names = distinct_area_names(all);
    let pattern = to_search_form(query);
    let ghost dv = names.deep_view();
    let mut matched: Vec<(i64, String)> = Vec::new();
    let mut i: usize = 0;
    proof {
        lemma_search_form_has_no_capitals(query@);
    }
    assert(dv.subrange(0, 0) =~= Seq::<Seq<char>>::empty());
    assert(candidates(matched@) =~= Seq::<(i64, Seq<char>)>::empty());
    while i < names.len()
        invariant
            i <= names@.len(),
            pattern@ == search_form(query@),
            !has_ascii_upper(pattern@),
            dv == names.deep_view(),
            dv == distinct_areas(records(all@)),
            candidates(matched@) == scored(dv.subrange(0, i as int), query@),
            forall|j: int|
                0 <= j < candidates(matched@).len() ==> dv.contains(
                    (#[trigger] candidates(matched@)[j]).1,
                ) && folded_subsequence(pattern@, search_form(candidates(matched@)[j].1)),
            forall|k: int|
                0 <= k < i && folded_subsequence(pattern@, search_form(#[trigger] dv[k]))
                    ==> exists|j: int|
                    0 <= j < candidates(matched@).len() && (#[trigger] candidates(
                        matched@,
                    )[j]).1 == dv[k],
        decreases names@.len() - i,
    {
        let ghost x = dv[i as int];
        let ghost prefix = dv.subrange(0, i as int);
        let ghost next = dv.subrange(0, i as int + 1);
        assert(next.drop_last() =~= prefix);
        assert(next.last() == x);
        let choice = to_search_form(names[i].as_str());
        let ghost before = candidates(matched@);
        if let Some(score) = fuzzy_score(&choice, &pattern) {
            matched.push((score, names[i].clone()));
            assert(candidates(matched@) =~= before.push((score, x)));
            assert(candidates(matched@)[before.len() as int].1 == dv[i as int]);
            assert forall|k: int|
                0 <= k < i + 1 && folded_subsequence(pattern@, search_form(#[trigger] dv[k]))
                    implies exists|j: int|
                    0 <= j < candidates(matched@).len() && (#[trigger] candidates(
                        matched@,
                    )[j]).1 == dv[k] by {
                if k < i {
                    let j = choose|j: int|
                        0 <= j < before.len() && (#[trigger] before[j]).1 == dv[k];
                    assert(candidates(matched@)[j] == before[j]);
                } else {
                    assert(candidates(matched@)[before.len() as int].1 == dv[k]);
                }
            }
            assert forall|j: int| 0 <= j < candidates(matched@).len() implies dv.contains(
                (#[trigger] candidates(matched@)[j]).1,
            ) && folded_subsequence(pattern@, search_form(candidates(matched@)[j].1)) by {
                if j < before.len() {
                    assert(candidates(matched@)[j] == before[j]);
                } else {
                    assert(dv[i as int] == x);
                }
            }
        } else {
            assert(!folded_subsequence(pattern@, search_form(x)));
        }
        i = i + 1;
    }
    assert(dv.subrange(0, i as int) =~= dv);
    let ghost cands = candidates(matched@);
    let r = rank_by_score(matched);
    proof {
        broadcast use vstd::seq_lib::group_to_multiset_ensures;

        let h = hits(r@);
        assert forall|i: int| 0 <= i < r@.len() implies dv.contains(
            (#[trigger] r@[i]).result.name@,
        ) && folded_subsequence(search_form(query@), search_form(r@[i].result.name@)) by {
            assert(h[i] == (r@[i].score, r@[i].result.name@));
            assert(h.contains(h[i]));
            assert(h.to_multiset().count(h[i]) > 0);
            assert(cands.contains(h[i]));
            let j = choose|j: int| 0 <= j < cands.len() && cands[j] == h[i];
            assert(cands[j].1 == r@[i].result.name@);
        }
        assert forall|n: Seq<char>|
            dv.contains(n) && folded_subsequence(
                search_form(query@),
                #[trigger] search_form(n),
            ) implies exists|i: int| 0 <= i < r@.len() && (#[trigger] r@[i]).result.name@ == n by {
            let k = choose|k: int| 0 <= k < dv.len() && dv[k] == n;
            let j = choose|j: int| 0 <= j < cands.len() && (#[trigger] cands[j]).1 == dv[k];
            assert(cands.contains(cands[j]));
            assert(h.to_multiset().count(cands[j]) > 0);
            assert(h.contains(cands[j]));
            let m = choose|m: int| 0 <= m < h.len() && h[m] == cands[j];
            assert(r@[m].result.name@ == n);
        }
    }
    r
}

// ---------------------------------------------------------------------------------------------
// Schedules
// ---------------------------------------------------------------------------------------------

/// The recurring schedule that the schedule feed `text` describes: the header row selects
/// the layout, and every record is decoded and normalized. Only `outages` is filled in; the
/// other fields keep their defaults.
pub fn schedules(text: &str) -> (r: Result<RecurringSchedule, Errors>)
    ensures
        csv_table_of(text@) is None ==> r matches Err(Errors::MalformedCsv),
        csv_table_of(text@) matches Some(t) ==> match layout_of(t.0) {
            None => r matches Err(Errors::UnknownHeaders(h)) && h.deep_view() == t.0,
            Some(layout) => match schedule_rows_outcome(layout, t.0, t.1) {
                Ok(outages) => r matches Ok(s) && s.outages@ == outages && s.has_defaults(),
                Err(e) => r == Err::<RecurringSchedule, Errors>(e),
            },
        },
        r matches Ok(s) ==> s.wf(),
{
    match read_csv(text) {
        Ok(table) => schedule_from_table(table),
        Err(_) => Err(Errors::MalformedCsv),
    }
}

} // verus!
