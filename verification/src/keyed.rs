//! Values keyed by market index, held in a vector without repeated keys;
//! inserting under a key that is present replaces its value.
use vstd::prelude::*;

use crate::marketindex::{IndexKey, MarketIndex};

verus! {

/// No key occurs twice.
pub open spec fn keys_distinct<V>(s: Seq<(MarketIndex, V)>) -> bool {
    forall|i: int, j: int| 0 <= i < j < s.len() ==> (#[trigger] s[i]).0@ != (#[trigger] s[j]).0@
}

/// The keys held.
pub open spec fn keys_held<V>(s: Seq<(MarketIndex, V)>) -> Set<IndexKey> {
    Set::new(|k: IndexKey| exists|i: int| 0 <= i < s.len() && (#[trigger] s[i]).0@ == k)
}

/// The value held under `k`, if any.
pub open spec fn keyed_lookup<V>(s: Seq<(MarketIndex, V)>, k: IndexKey) -> Option<V> {
    if exists|i: int| 0 <= i < s.len() && (#[trigger] s[i]).0@ == k {
        Some(s[choose|i: int| 0 <= i < s.len() && (#[trigger] s[i]).0@ == k].1)
    } else {
        None
    }
}

/// Under distinct keys, the value held under the key at `i` is the value at `i`.
pub proof fn lemma_lookup_at<V>(s: Seq<(MarketIndex, V)>, i: int)
    requires
        keys_distinct(s),
        0 <= i < s.len(),
    ensures
        keyed_lookup(s, s[i].0@) == Some(s[i].1),
{
    let k = s[i].0@;
    assert(s[i].0@ == k);
    let j = choose|j: int| 0 <= j < s.len() && (#[trigger] s[j]).0@ == k;
    if j < i {
        assert(s[j].0@ != s[i].0@);
    } else if i < j {
        assert(s[i].0@ != s[j].0@);
    }
}

/// Position of the key `k`, if held.
pub fn find_key<V>(s: &Vec<(MarketIndex, V)>, k: &MarketIndex) -> (r: Option<usize>)
    ensures
        r matches Some(i) ==> i < s@.len() && s@[i as int].0@ == k@,
        r is None ==> forall|j: int| 0 <= j < s@.len() ==> (#[trigger] s@[j]).0@ != k@,
{
    let n = s.len();
    let mut i: usize = 0;
    while i < n
        invariant
            n == s@.len(),
            i <= n,
            forall|j: int| 0 <= j < i ==> (#[trigger] s@[j]).0@ != k@,
        decreases n - i,
    {
        if s[i].0.same_as(k) {
            return Some(i);
        }
        i = i + 1;
    }
    None
}

/// Inserts `v` under `k`, replacing the value held under `k` if there is one.
pub fn insert_keyed<V>(s: &mut Vec<(MarketIndex, V)>, k: MarketIndex, v: V)
    requires
        keys_distinct(old(s)@),
    ensures
        keys_distinct(final(s)@),
        keys_held(final(s)@) == keys_held(old(s)@).insert(k@),
        exists|i: int| 0 <= i < final(s)@.len() && final(s)@[i].0@ == k@ && final(s)@[i].1 == v,
        forall|i: int| 0 <= i < old(s)@.len() && old(s)@[i].0@ != k@ ==> exists|j: int|
            0 <= j < final(s)@.len() && #[trigger] final(s)@[j] == old(s)@[i],
        forall|j: int| 0 <= j < final(s)@.len() && final(s)@[j].0@ != k@ ==> exists|i: int|
            0 <= i < old(s)@.len() && old(s)@[i] == #[trigger] final(s)@[j],
{
    let ghost before = s@;
    let n = s.len();
    let pos = find_key(s, &k);
    let i: usize = match pos {
        Some(p) => p,
        None => n,
    };
    if i < n {
        assert(s@[i as int].0@ == k@);
        s.set(i, (k, v));
        proof {
            assert forall|a: int, b: int| 0 <= a < b < s@.len() implies (#[trigger] s@[a]).0@ != (#[trigger] s@[b]).0@ by {
                if a != i && b != i {
                    assert(s@[a] == before[a] && s@[b] == before[b]);
                } else if a == i {
                    assert(s@[b] == before[b]);
                } else {
                    assert(s@[a] == before[a]);
                }
            }
            assert forall|x: IndexKey| #[trigger] keys_held(s@).contains(x) == keys_held(before).insert(k@).contains(x) by {
                if keys_held(s@).contains(x) {
                    let j = choose|j: int| 0 <= j < s@.len() && (#[trigger] s@[j]).0@ == x;
                    if j != i {
                        assert(s@[j] == before[j]);
                    }
                }
                if keys_held(before).contains(x) {
                    let j = choose|j: int| 0 <= j < before.len() && (#[trigger] before[j]).0@ == x;
                    if j != i {
                        assert(s@[j] == before[j]);
                    } else {
                        assert(s@[j].0@ == x);
                    }
                }
                if x == k@ {
                    assert(s@[i as int].0@ == x);
                }
            }
            assert(keys_held(s@) =~= keys_held(before).insert(k@));
            assert forall|a: int| 0 <= a < before.len() && before[a].0@ != k@ implies exists|j: int|
                0 <= j < s@.len() && #[trigger] s@[j] == before[a] by {
                assert(a != i);
                assert(s@[a] == before[a]);
            }
            assert forall|j: int| 0 <= j < s@.len() && s@[j].0@ != k@ implies exists|a: int|
                0 <= a < before.len() && before[a] == #[trigger] s@[j] by {
                assert(j != i);
                assert(s@[j] == before[j]);
            }
            assert(s@[i as int].0@ == k@);
        }
    } else {
        s.push((k, v));
        proof {
            assert forall|a: int, b: int| 0 <= a < b < s@.len() implies (#[trigger] s@[a]).0@ != (#[trigger] s@[b]).0@ by {
                if b < n {
                    assert(s@[a] == before[a] && s@[b] == before[b]);
                } else {
                    assert(s@[a] == before[a]);
                }
            }
            assert forall|x: IndexKey| #[trigger] keys_held(s@).contains(x) == keys_held(before).insert(k@).contains(x) by {
                if keys_held(s@).contains(x) {
                    let j = choose|j: int| 0 <= j < s@.len() && (#[trigger] s@[j]).0@ == x;
                    if j < n {
                        assert(s@[j] == before[j]);
                    }
                }
                if keys_held(before).contains(x) {
                    let j = choose|j: int| 0 <= j < before.len() && (#[trigger] before[j]).0@ == x;
                    assert(s@[j] == before[j]);
                }
                if x == k@ {
                    assert(s@[n as int].0@ == x);
                }
            }
            assert(keys_held(s@) =~= keys_held(before).insert(k@));
            assert forall|a: int| 0 <= a < before.len() && before[a].0@ != k@ implies exists|j: int|
                0 <= j < s@.len() && #[trigger] s@[j] == before[a] by {
                assert(s@[a] == before[a]);
            }
            assert forall|j: int| 0 <= j < s@.len() && s@[j].0@ != k@ implies exists|a: int|
                0 <= a < before.len() && before[a] == #[trigger] s@[j] by {
                assert(j < n);
                assert(s@[j] == before[j]);
            }
            assert(s@[n as int].0@ == k@);
        }
    }
}

} // verus!
