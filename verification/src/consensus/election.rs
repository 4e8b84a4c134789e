//! Leader election: a round-robin over the committee in ascending order of
//! identifier, driven by the round alone.

use crate::identity::PublicKey;
use crate::rounds::Round;
use vstd::prelude::*;

verus! {

/// The seed of the steady-state election of a round: the wave of the round,
/// or 0 where the election is pinned.
pub open spec fn steady_seed(round: Round, pinned: bool) -> int {
    if pinned {
        0
    } else {
        (round + 1) / 2
    }
}

/// The coin of the fallback election of a round: a quarter of the round's
/// successor, or 0 where the election is pinned.
pub open spec fn fallback_coin(round: Round, pinned: bool) -> int {
    if pinned {
        0
    } else {
        (round + 1) / 4
    }
}

/// The authority that a seed elects: the one at place `seed mod |L|` of the
/// committee's ascending list `L`.
pub open spec fn elected(committee: Seq<PublicKey>, seed: int) -> PublicKey {
    committee[seed % (committee.len() as int)]
}

/// Computes the seed of the steady-state election.
pub fn compute_steady_seed(round: Round, pinned: bool) -> (seed: u64)
    ensures
        seed == steady_seed(round, pinned),
{
    if pinned {
        0
    } else {
        round / 2 + round % 2
    }
}

/// Computes the coin of the fallback election.
pub fn compute_fallback_coin(round: Round, pinned: bool) -> (coin: u64)
    ensures
        coin == fallback_coin(round, pinned),
{
    if pinned {
        0
    } else if round % 4 == 3 {
        round / 4 + 1
    } else {
        round / 4
    }
}

/// The place in a list of `size` authorities that a seed elects.
pub fn elected_place(seed: u64, size: usize) -> (place: usize)
    requires
        size > 0,
    ensures
        place == seed as int % size as int,
        place < size,
{
    (seed % (size as u64)) as usize
}

} // verus!
