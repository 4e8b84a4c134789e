//! Rounds and waves.

use vstd::prelude::*;

verus! {

/// A round of the DAG. Round 0 is the genesis round.
pub type Round = u64;

/// The wave that a round belongs to: `(round + 1) / 2`.
pub open spec fn spec_wave_of(round: Round) -> Round {
    ((round + 1) / 2) as Round
}

/// Computes the wave of a round. The sum is never formed, so that the last
/// round has a wave too.
pub fn wave_of(round: Round) -> (wave: Round)
    ensures
        wave == (round + 1) / 2,
        wave == spec_wave_of(round),
{
    round / 2 + round % 2
}

} // verus!
