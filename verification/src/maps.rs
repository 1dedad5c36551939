//! Helpers over `HashMap`: mutable lookup, which the std specifications leave out, the
//! keys as a vector, and the smallest key.

use vstd::prelude::*;
use std::collections::HashMap;
use std::hash::Hash;
use vstd::std_specs::iter::IteratorSpec;

verus! {

broadcast use vstd::std_specs::hash::group_hash_axioms;

/// `HashMap::get_mut`: a mutable reference to the value under `k` when the key is
/// present (and the map is then the old map with that entry replaced by whatever the
/// reference ends up holding); `None` and no change when it is absent.
#[verifier::external_body]
pub(crate) fn hash_map_get_mut<'a, K: Eq + Hash, V>(m: &'a mut HashMap<K, V>, k: &K) -> (r: Option<&'a mut V>)
    ensures
        vstd::std_specs::hash::obeys_key_model::<K>() ==> match r {
            Some(v) => old(m)@.contains_key(*k) && *v == old(m)@[*k] && final(m)@ == old(m)@.insert(*k, *final(v)),
            None => !old(m)@.contains_key(*k) && final(m)@ == old(m)@,
        },
{
    m.get_mut(k)
}

/// `k` is the smallest element of `s`.
pub open spec fn is_least_u32(s: Set<u32>, k: u32) -> bool {
    s.contains(k) && forall|j: u32| #[trigger] s.contains(j) ==> k <= j
}

/// The smallest element of `s` (meaningful when `s` is not empty).
pub open spec fn least_u32(s: Set<u32>) -> u32 {
    choose|k: u32| is_least_u32(s, k)
}

/// `k` is the smallest element of `s`.
pub open spec fn is_least_u64(s: Set<u64>, k: u64) -> bool {
    s.contains(k) && forall|j: u64| #[trigger] s.contains(j) ==> k <= j
}

/// The smallest element of `s` (meaningful when `s` is not empty).
pub open spec fn least_u64(s: Set<u64>) -> u64 {
    choose|k: u64| is_least_u64(s, k)
}

/// A finite set of `u32` that is not empty has a smallest element.
pub proof fn lemma_least_u32(s: Set<u32>)
    requires
        s.finite(),
        !s.is_empty(),
    ensures
        is_least_u32(s, least_u32(s)),
    decreases s.len(),
{
    let x = s.choose();
    assert(s.contains(x)) by {
        if !s.contains(x) {
            assert(s =~= Set::<u32>::empty());
        }
    }
    let rest = s.remove(x);
    if rest.is_empty() {
        assert forall|j: u32| #[trigger] s.contains(j) implies x <= j by {
            if j != x {
                assert(rest.contains(j));
            }
        }
        assert(is_least_u32(s, x));
    } else {
        lemma_least_u32(rest);
        let y = least_u32(rest);
        let m = if x <= y { x } else { y };
        assert forall|j: u32| #[trigger] s.contains(j) implies m <= j by {
            if j != x {
                assert(rest.contains(j));
            }
        }
        assert(is_least_u32(s, m));
    }
}

/// A finite set of `u64` that is not empty has a smallest element.
pub proof fn lemma_least_u64(s: Set<u64>)
    requires
        s.finite(),
        !s.is_empty(),
    ensures
        is_least_u64(s, least_u64(s)),
    decreases s.len(),
{
    let x = s.choose();
    assert(s.contains(x)) by {
        if !s.contains(x) {
            assert(s =~= Set::<u64>::empty());
        }
    }
    let rest = s.remove(x);
    if rest.is_empty() {
        assert forall|j: u64| #[trigger] s.contains(j) implies x <= j by {
            if j != x {
                assert(rest.contains(j));
            }
        }
        assert(is_least_u64(s, x));
    } else {
        lemma_least_u64(rest);
        let y = least_u64(rest);
        let m = if x <= y { x } else { y };
        assert forall|j: u64| #[trigger] s.contains(j) implies m <= j by {
            if j != x {
                assert(rest.contains(j));
            }
        }
        assert(is_least_u64(s, m));
    }
}

/// The smallest key of `m`, if it has any.
pub fn least_key_u32<V>(m: &HashMap<u32, V>) -> (r: Option<u32>)
    ensures
        match r {
            Some(k) => m@.contains_key(k) && k == least_u32(m@.dom()) && is_least_u32(m@.dom(), k),
            None => m@.dom().is_empty(),
        },
{
    let ks = map_keys(m);
    if ks.len() == 0 {
        assert(m@.dom() =~= Set::<u32>::empty()) by {
            assert forall|j: u32| !m@.dom().contains(j) by {
                if m@.dom().contains(j) {
                    assert(ks@.to_set().contains(j));
                }
            }
        }
        return None;
    }
    let mut best: u32 = ks[0];
    let mut i: usize = 1;
    while i < ks.len()
        invariant
            1 <= i <= ks@.len(),
            ks@.contains(best),
            forall|t: int| 0 <= t < i ==> best <= #[trigger] ks@[t],
        decreases ks@.len() - i,
    {
        if ks[i] < best {
            best = ks[i];
        }
        i = i + 1;
    }
    proof {
        assert(ks@.to_set().contains(best));
        assert forall|j: u32| #[trigger] m@.dom().contains(j) implies best <= j by {
            assert(ks@.to_set().contains(j));
            let t = choose|t: int| 0 <= t < ks@.len() && ks@[t] == j;
            assert(best <= ks@[t]);
        }
        assert(is_least_u32(m@.dom(), best));
        let c = least_u32(m@.dom());
        assert(is_least_u32(m@.dom(), c));
        assert(c <= best && best <= c);
    }
    Some(best)
}

/// The smallest key of `m`, if it has any.
pub fn least_key_u64<V>(m: &HashMap<u64, V>) -> (r: Option<u64>)
    ensures
        match r {
            Some(k) => m@.contains_key(k) && k == least_u64(m@.dom()) && is_least_u64(m@.dom(), k),
            None => m@.dom().is_empty(),
        },
{
    let ks = map_keys(m);
    if ks.len() == 0 {
        assert(m@.dom() =~= Set::<u64>::empty()) by {
            assert forall|j: u64| !m@.dom().contains(j) by {
                if m@.dom().contains(j) {
                    assert(ks@.to_set().contains(j));
                }
            }
        }
        return None;
    }
    let mut best: u64 = ks[0];
    let mut i: usize = 1;
    while i < ks.len()
        invariant
            1 <= i <= ks@.len(),
            ks@.contains(best),
            forall|t: int| 0 <= t < i ==> best <= #[trigger] ks@[t],
        decreases ks@.len() - i,
    {
        if ks[i] < best {
            best = ks[i];
        }
        i = i + 1;
    }
    proof {
        assert(ks@.to_set().contains(best));
        assert forall|j: u64| #[trigger] m@.dom().contains(j) implies best <= j by {
            assert(ks@.to_set().contains(j));
            let t = choose|t: int| 0 <= t < ks@.len() && ks@[t] == j;
            assert(best <= ks@[t]);
        }
        assert(is_least_u64(m@.dom(), best));
        let c = least_u64(m@.dom());
        assert(is_least_u64(m@.dom(), c));
        assert(c <= best && best <= c);
    }
    Some(best)
}

/// The keys of `m`, each once, in the map's iteration order.
pub fn map_keys<K: Copy, V>(m: &HashMap<K, V>) -> (v: Vec<K>)
    requires
        vstd::std_specs::hash::obeys_key_model::<K>(),
    ensures
        v@.to_set() == m@.dom(),
        v@.no_duplicates(),
        v@.len() == m@.dom().len(),
{
    let mut v: Vec<K> = Vec::new();
    let ghost ks = vstd::std_specs::hash::spec_keys_iter(m).remaining();
    proof {
        vstd::std_specs::hash::axiom_spec_keys_iter(m);
    }
    for k in it: m.keys()
        invariant
            it.seq() == ks,
            v@.len() == it.index(),
            forall|i: int| 0 <= i < v@.len() ==> v@[i] == *ks[i],
    {
        v.push(*k);
    }
    proof {
        assert(v@ =~= ks.unref());
    }
    v
}

} // verus!
