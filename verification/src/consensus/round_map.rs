//! Maps keyed by round or wave number, and how they are pruned.

use crate::rounds::Round;
use std::collections::HashMap;
use vstd::prelude::*;

verus! {

/// What is left of a map when only the keys after `bound` are kept.
pub open spec fn kept_after<V>(map: Map<Round, V>, bound: Round) -> Map<Round, V> {
    Map::new(|key: Round| map.contains_key(key) && key > bound, |key: Round| map[key])
}

/// Removes every entry whose key is not after `bound`.
pub fn retain_after<V>(map: &mut HashMap<Round, V>, bound: Round)
    ensures
        final(map)@ == kept_after(old(map)@, bound),
{
    let mut stale: Vec<Round> = Vec::new();
    for key in it: map.keys()
        invariant
            forall|j: int| 0 <= j < stale@.len() ==> #[trigger] stale@[j] <= bound,
            forall|j: int|
                0 <= j < it.index() && *it.seq()[j] <= bound ==> stale@.contains(*#[trigger] it.seq()[j]),
    {
        let ghost found = stale@;
        if *key <= bound {
            stale.push(*key);
        }
        proof {
            assert forall|j: int| 0 <= j < it.index() + 1 && *it.seq()[j] <= bound implies stale@.contains(
                *#[trigger] it.seq()[j],
            ) by {
                if j < it.index() {
                    let at = choose|at: int| 0 <= at < found.len() && found[at] == *it.seq()[j];
                    assert(stale@[at] == *it.seq()[j]);
                } else {
                    assert(stale@[stale@.len() - 1] == *key);
                }
            }
        }
    }
    assert(forall|key: Round| map@.contains_key(key) && key <= bound ==> stale@.contains(key));
    let mut i: usize = 0;
    while i < stale.len()
        invariant
            i <= stale.len(),
            forall|key: Round| #[trigger]
                map@.contains_key(key) ==> old(map)@.contains_key(key) && map@[key] == old(map)@[key],
            forall|key: Round|
                old(map)@.contains_key(key) && key > bound ==> #[trigger] map@.contains_key(key),
            forall|j: int| 0 <= j < stale@.len() ==> #[trigger] stale@[j] <= bound,
            forall|j: int| 0 <= j < i ==> !map@.contains_key(#[trigger] stale@[j]),
        decreases stale.len() - i,
    {
        map.remove(&stale[i]);
        i += 1;
    }
    proof {
        assert forall|key: Round| map@.contains_key(key) implies key > bound by {
            if key <= bound {
                let at = choose|at: int| 0 <= at < stale@.len() && stale@[at] == key;
                assert(!map@.contains_key(stale@[at]));
            }
        }
        assert(map@ =~= kept_after(old(map)@, bound));
    }
}

} // verus!
