//! Area names as they appear in the outage feed: each once, and in sorted order.
use vstd::prelude::*;

use crate::structs::{OutageRecord, PowerOutage, records};
use crate::text::{
    chars_less, chars_of, lemma_lex_irreflexive, lemma_lex_total, lemma_lex_transitive, lex_less,
    strictly_sorted,
};

verus! {

/// The area name of every outage, in feed order.
pub open spec fn area_names(all: Seq<OutageRecord>) -> Seq<Seq<char>> {
    all.map_values(|o: OutageRecord| o.area_name)
}

/// Each area name once, in the order of first appearance.
pub open spec fn distinct_areas(all: Seq<OutageRecord>) -> Seq<Seq<char>> {
    area_names(all).remove_duplicates(Seq::empty())
}

/// The area names of the feed, each once, in the order in which they first appear.
pub fn distinct_area_names(all: &Vec<PowerOutage>) -> (r: Vec<String>)
    ensures
        r.deep_view() == distinct_areas(records(all@)),
        r.deep_view().no_duplicates(),
        r.deep_view().to_set() == area_names(records(all@)).to_set(),
{
    let ghost names = area_names(records(all@));
    let mut out: Vec<String> = Vec::new();
    let mut i: usize = 0;
    proof {
        assert(names.subrange(0, 0) =~= Seq::<Seq<char>>::empty());
        assert(out.deep_view() =~= Seq::<Seq<char>>::empty());
        reveal_with_fuel(Seq::remove_duplicates, 1);
    }
    while i < all.len()
        invariant
            i <= all@.len(),
            names == area_names(records(all@)),
            out.deep_view() == names.subrange(0, i as int).remove_duplicates(Seq::empty()),
            out.deep_view().no_duplicates(),
            forall|n: Seq<char>|
                out.deep_view().contains(n) <==> names.subrange(0, i as int).contains(n),
        decreases all@.len() - i,
    {
        let name = &all[i].area_name;
        let ghost prefix = names.subrange(0, i as int);
        let ghost x = name@;
        assert(names[i as int] == x);
        assert(names.subrange(0, i as int + 1) =~= prefix + seq![x]);
        proof {
            prefix.lemma_remove_duplicates_append(x, Seq::empty());
            assert(prefix + Seq::<Seq<char>>::empty() =~= prefix);
        }
        let mut seen = false;
        let mut j: usize = 0;
        while j < out.len()
            invariant
                j <= out@.len(),
                seen <==> exists|k: int| 0 <= k < j && out.deep_view()[k] == x,
                x == name@,
            decreases out@.len() - j,
        {
            if out[j] == *name {
                assert(out.deep_view()[j as int] == x);
                seen = true;
            }
            j = j + 1;
        }
        if !seen {
            let ghost before = out.deep_view();
            assert(!before.contains(x));
            assert(!prefix.contains(x));
            out.push(name.clone());
            assert(out.deep_view() =~= before + seq![x]);
            assert forall|n: Seq<char>| out.deep_view().contains(n) implies names.subrange(
                0,
                i as int + 1,
            ).contains(n) by {
                let k = choose|k: int| 0 <= k < out.deep_view().len() && out.deep_view()[k] == n;
                if k < before.len() {
                    assert(before[k] == n);
                    assert(before.contains(n));
                    assert(prefix.contains(n));
                    let m = choose|m: int| 0 <= m < prefix.len() && prefix[m] == n;
                    assert(names.subrange(0, i as int + 1)[m] == n);
                } else {
                    assert(names.subrange(0, i as int + 1)[i as int] == n);
                }
            }
            assert forall|n: Seq<char>|
                names.subrange(0, i as int + 1).contains(n) implies out.deep_view().contains(n) by {
                let k = choose|k: int| 0 <= k < i + 1 && names[k] == n;
                if k < i {
                    assert(prefix[k] == n);
                    assert(before.contains(n));
                    let m = choose|m: int| 0 <= m < before.len() && before[m] == n;
                    assert(out.deep_view()[m] == n);
                } else {
                    assert(out.deep_view()[before.len() as int] == n);
                }
            }
        } else {
            assert(out.deep_view().contains(x));
            assert(prefix.contains(x));
            assert forall|n: Seq<char>|
                names.subrange(0, i as int + 1).contains(n) implies out.deep_view().contains(n) by {
                let k = choose|k: int| 0 <= k < i + 1 && names[k] == n;
                if k < i {
                    assert(prefix[k] == n);
                }
            }
        }
        i = i + 1;
    }
    assert(names.subrange(0, i as int) =~= names);
    assert(out.deep_view().to_set() =~= names.to_set());
    out
}

/// Sorts distinct names into strictly increasing order.
pub fn sort_names(names: Vec<String>) -> (r: Vec<String>)
    requires
        names.deep_view().no_duplicates(),
    ensures
        strictly_sorted(r.deep_view()),
        r.deep_view().to_set() == names.deep_view().to_set(),
{
    let ghost input = names.deep_view();
    let mut out: Vec<String> = Vec::new();
    let mut keys: Vec<Vec<char>> = Vec::new();
    let mut i: usize = 0;
    assert(out.deep_view().to_set() =~= input.subrange(0, 0).to_set());
    while i < names.len()
        invariant
            i <= names@.len(),
            input == names.deep_view(),
            input.no_duplicates(),
            keys@.len() == out@.len(),
            forall|j: int| 0 <= j < keys@.len() ==> #[trigger] keys@[j]@ == out.deep_view()[j],
            strictly_sorted(out.deep_view()),
            out.deep_view().to_set() == input.subrange(0, i as int).to_set(),
        decreases names@.len() - i,
    {
        let name = &names[i];
        let key = chars_of(name.as_str());
        let ghost x = name@;
        let ghost dv = out.deep_view();
        assert(input[i as int] == x);
        assert(!dv.contains(x)) by {
            if dv.contains(x) {
                assert(dv.to_set().contains(x));
                assert(input.subrange(0, i as int).to_set().contains(x));
                let k = choose|k: int| 0 <= k < i && input[k] == x;
                assert(input[k] == input[i as int]);
            }
        }
        let mut k: usize = 0;
        while k < keys.len() && chars_less(&keys[k], &key)
            invariant
                k <= keys@.len(),
                keys@.len() == dv.len(),
                dv == out.deep_view(),
                forall|j: int| 0 <= j < keys@.len() ==> #[trigger] keys@[j]@ == dv[j],
                forall|j: int| 0 <= j < k ==> lex_less(#[trigger] dv[j], x),
                key@ == x,
            decreases keys@.len() - k,
        {
            k = k + 1;
        }
        proof {
            if k < dv.len() {
                assert(!lex_less(dv[k as int], x));
                assert(dv[k as int] != x);
                lemma_lex_total(dv[k as int], x);
            }
        }
        let ghost old_keys = keys@;
        out.insert(k, name.clone());
        keys.insert(k, key);
        assert(out.deep_view() =~= dv.insert(k as int, x));
        assert forall|a: int, b: int|
            0 <= a < b < out.deep_view().len() implies lex_less(
            #[trigger] out.deep_view()[a],
            #[trigger] out.deep_view()[b],
        ) by {
            let nv = out.deep_view();
            if b < k {
            } else if b == k {
            } else if a < k {
                assert(nv[b] == dv[b - 1]);
                if b - 1 > k {
                    assert(lex_less(dv[k as int], dv[b - 1]));
                    lemma_lex_transitive(x, dv[k as int], dv[b - 1]);
                }
                lemma_lex_transitive(nv[a], x, nv[b]);
            } else if a == k {
                if b - 1 > k {
                    assert(lex_less(dv[k as int], dv[b - 1]));
                    lemma_lex_transitive(x, dv[k as int], dv[b - 1]);
                }
            } else {
                assert(nv[a] == dv[a - 1]);
                assert(nv[b] == dv[b - 1]);
            }
        }
        assert forall|j: int| 0 <= j < keys@.len() implies #[trigger] keys@[j]@ == out.deep_view()[j] by {
            if j < k {
            } else if j > k {
                assert(keys@[j] == old_keys[j - 1]);
            }
        }
        proof {
            vstd::seq_lib::to_multiset_insert(dv, k as int, x);
            assert(out.deep_view().to_set() =~= input.subrange(0, i as int + 1).to_set()) by {
                assert(input.subrange(0, i as int + 1) =~= input.subrange(0, i as int).push(x));
                assert forall|n: Seq<char>| out.deep_view().to_set().contains(n) <==> input.subrange(0, i as int + 1).to_set().contains(n) by {
                    let next = input.subrange(0, i as int + 1);
                    if out.deep_view().contains(n) {
                        let j = choose|j: int| 0 <= j < out.deep_view().len() && out.deep_view()[j] == n;
                        if j != k {
                            let jj = if j < k { j } else { j - 1 };
                            assert(dv[jj] == n);
                            assert(dv.to_set().contains(n));
                            assert(input.subrange(0, i as int).to_set().contains(n));
                            let m = choose|m: int| 0 <= m < i && input.subrange(0, i as int)[m] == n;
                            assert(next[m] == n);
                        } else {
                            assert(next[i as int] == n);
                        }
                        assert(next.contains(n));
                    }
                    if next.contains(n) {
                        let j = choose|j: int| 0 <= j < i + 1 && next[j] == n;
                        if j < i {
                            assert(input.subrange(0, i as int)[j] == n);
                            assert(input.subrange(0, i as int).contains(n));
                            assert(dv.to_set().contains(n));
                            let m = choose|m: int| 0 <= m < dv.len() && dv[m] == n;
                            if m < k {
                                assert(out.deep_view()[m] == n);
                            } else {
                                assert(out.deep_view()[m + 1] == n);
                            }
                        } else {
                            assert(out.deep_view()[k as int] == n);
                        }
                    }
                }
            }
        }
        i = i + 1;
    }
    assert(input.subrange(0, i as int) =~= input);
    out
}

} // verus!
