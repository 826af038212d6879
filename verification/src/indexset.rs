//! Sets of market indices held in vectors without repetition.
use vstd::prelude::*;

use crate::marketindex::{IndexKey, MarketIndex};

verus! {

/// The indices held by `v`.
pub open spec fn index_keys(v: Seq<MarketIndex>) -> Set<IndexKey> {
    Set::new(|k: IndexKey| exists|i: int| 0 <= i < v.len() && (#[trigger] v[i])@ == k)
}

/// No index occurs twice in `v`.
pub open spec fn distinct_indices(v: Seq<MarketIndex>) -> bool {
    forall|i: int, j: int| 0 <= i < j < v.len() ==> (#[trigger] v[i])@ != (#[trigger] v[j])@
}

/// A distinct sequence holds as many indices as its length.
pub proof fn lemma_distinct_len(v: Seq<MarketIndex>)
    requires
        distinct_indices(v),
    ensures
        index_keys(v).finite(),
        index_keys(v).len() == v.len(),
    decreases v.len(),
{
    if v.len() == 0 {
        assert(index_keys(v) =~= Set::<IndexKey>::empty());
    } else {
        let w = v.drop_last();
        lemma_distinct_len(w);
        assert(index_keys(v) =~= index_keys(w).insert(v.last()@)) by {
            assert forall|k: IndexKey| index_keys(v).contains(k) implies index_keys(w).insert(v.last()@).contains(k) by {
                let i = choose|i: int| 0 <= i < v.len() && (#[trigger] v[i])@ == k;
                if i < v.len() - 1 {
                    assert(w[i] == v[i]);
                }
            }
            assert forall|k: IndexKey| index_keys(w).insert(v.last()@).contains(k) implies index_keys(v).contains(k) by {
                if k != v.last()@ {
                    let i = choose|i: int| 0 <= i < w.len() && (#[trigger] w[i])@ == k;
                    assert(v[i] == w[i]);
                } else {
                    assert(v[v.len() - 1]@ == k);
                }
            }
        }
        assert(!index_keys(w).contains(v.last()@)) by {
            if index_keys(w).contains(v.last()@) {
                let i = choose|i: int| 0 <= i < w.len() && (#[trigger] w[i])@ == v.last()@;
                assert(v[i] == w[i]);
                assert(v[i]@ != v[v.len() - 1]@);
            }
        }
    }
}

/// Whether `x` occurs in `v`.
pub fn contains_index(v: &Vec<MarketIndex>, x: &MarketIndex) -> (r: bool)
    ensures
        r == index_keys(v@).contains(x@),
{
    let n = v.len();
    let mut i: usize = 0;
    while i < n
        invariant
            n == v@.len(),
            i <= n,
            forall|j: int| 0 <= j < i ==> (#[trigger] v@[j])@ != x@,
        decreases n - i,
    {
        if v[i].same_as(x) {
            assert(v@[i as int]@ == x@);
            return true;
        }
        i = i + 1;
    }
    false
}

/// Position of `x` in `v`, if it occurs.
pub fn position_of(v: &Vec<MarketIndex>, x: &MarketIndex) -> (r: Option<usize>)
    ensures
        r matches Some(i) ==> i < v@.len() && v@[i as int]@ == x@,
        r is None ==> !index_keys(v@).contains(x@),
{
    let n = v.len();
    let mut i: usize = 0;
    while i < n
        invariant
            n == v@.len(),
            i <= n,
            forall|j: int| 0 <= j < i ==> (#[trigger] v@[j])@ != x@,
        decreases n - i,
    {
        if v[i].same_as(x) {
            return Some(i);
        }
        i = i + 1;
    }
    None
}

/// Adds `x` to `v` unless it already occurs.
pub fn insert_index(v: &mut Vec<MarketIndex>, x: MarketIndex)
    requires
        distinct_indices(old(v)@),
    ensures
        distinct_indices(final(v)@),
        index_keys(final(v)@) == index_keys(old(v)@).insert(x@),
        index_keys(old(v)@).contains(x@) ==> final(v)@ == old(v)@,
        !index_keys(old(v)@).contains(x@) ==> final(v)@ == old(v)@.push(x),
{
    if !contains_index(v, &x) {
        let ghost before = v@;
        v.push(x);
        proof {
            assert forall|k: IndexKey| #[trigger] index_keys(v@).contains(k) == index_keys(before).insert(x@).contains(k) by {
                if index_keys(before).contains(k) {
                    let i = choose|i: int| 0 <= i < before.len() && (#[trigger] before[i])@ == k;
                    assert(v@[i] == before[i]);
                }
                if index_keys(v@).contains(k) {
                    let i = choose|i: int| 0 <= i < v@.len() && (#[trigger] v@[i])@ == k;
                    if i < before.len() {
                        assert(v@[i] == before[i]);
                    }
                }
                assert(v@[before.len() as int] == x);
            }
            assert(index_keys(v@) =~= index_keys(before).insert(x@));
            assert forall|i: int, j: int| 0 <= i < j < v@.len() implies (#[trigger] v@[i])@ != (#[trigger] v@[j])@ by {
                if j == before.len() {
                    assert(v@[i] == before[i]);
                    assert(index_keys(before).contains(before[i]@));
                } else {
                    assert(v@[i] == before[i] && v@[j] == before[j]);
                }
            }
        }
    } else {
        assert(index_keys(v@).insert(x@) =~= index_keys(v@));
    }
}

/// Removes `x` from `v` if it occurs.
pub fn remove_index(v: &mut Vec<MarketIndex>, x: &MarketIndex)
    requires
        distinct_indices(old(v)@),
    ensures
        distinct_indices(final(v)@),
        index_keys(final(v)@) == index_keys(old(v)@).remove(x@),
{
    match position_of(v, x) {
        Some(i) => {
            let ghost before = v@;
            let _ = v.remove(i);
            proof {
                assert forall|a: int, b: int| 0 <= a < b < v@.len() implies (#[trigger] v@[a])@ != (#[trigger] v@[b])@ by {
                    let a2 = if a < i { a } else { a + 1 };
                    let b2 = if b < i { b } else { b + 1 };
                    assert(v@[a] == before[a2] && v@[b] == before[b2]);
                }
                assert forall|k: IndexKey| #[trigger] index_keys(v@).contains(k) == index_keys(before).remove(x@).contains(k) by {
                    if index_keys(v@).contains(k) {
                        let a = choose|a: int| 0 <= a < v@.len() && (#[trigger] v@[a])@ == k;
                        let a2 = if a < i { a } else { a + 1 };
                        assert(v@[a] == before[a2]);
                        assert(a2 != i);
                        if a2 < i {
                            assert(before[a2]@ != before[i as int]@);
                        } else {
                            assert(before[i as int]@ != before[a2]@);
                        }
                    }
                    if index_keys(before).remove(x@).contains(k) {
                        let a = choose|a: int| 0 <= a < before.len() && (#[trigger] before[a])@ == k;
                        assert(a != i);
                        let a1 = if a < i { a } else { a - 1 };
                        assert(v@[a1] == before[a]);
                    }
                }
                assert(index_keys(v@) =~= index_keys(before).remove(x@));
            }
        },
        None => {
            assert(index_keys(v@).remove(x@) =~= index_keys(v@));
        },
    }
}

} // verus!
