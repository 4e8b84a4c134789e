use dolphin_core::consensus::certificate::Certificate;
use dolphin_core::consensus::committee::Committee;
use dolphin_core::consensus::virtual_state::VirtualState;
use dolphin_core::identity::{Digest, PublicKey};
use dolphin_core::rounds::wave_of;

fn member(tag: u8) -> PublicKey {
    PublicKey { bytes: [tag; 32] }
}

fn hash_of(tag: u8, round: u64) -> Digest {
    let mut bytes = [0u8; 32];
    bytes[0] = tag;
    bytes[1] = round as u8;
    Digest { bytes }
}

fn link(tag: u8, round: u64) -> Certificate {
    Certificate {
        origin: member(tag),
        digest: hash_of(tag, round),
        round,
        virtual_round: round,
        virtual_parents: if round == 0 { Vec::new() } else { vec![hash_of(tag, round - 1)] },
    }
}

/// A state with rounds 0 to `last`, two authors each.
fn chain(last: u64) -> VirtualState {
    let committee = Committee::new(vec![member(1), member(2)]);
    let mut state = VirtualState::new(committee, vec![link(1, 0), link(2, 0)]);
    for round in 1..=last {
        assert!(state.try_add(&link(1, round)));
        assert!(state.try_add(&link(2, round)));
    }
    state
}

#[test]
fn cleanup_boundary() {
    let mut state = chain(3);
    assert!(state.add_steady_authority(2, member(1)));
    assert_eq!(state.dag().len(), 4);
    assert_eq!(state.steady_authorities_sets().len(), 2);
    state.cleanup(&2);
    assert_eq!(state.dag().len(), 1);
    assert!(state.dag().contains_round(3));
    assert_eq!(state.dag().round(3).unwrap().len(), 2);
    for round in 0..=2u64 {
        assert!(!state.dag().contains_round(round));
    }
    assert_eq!(state.steady_authorities_sets().len(), 1);
    assert!(state.steady_authorities_sets().contains_wave(2));
    assert!(!state.steady_authorities_sets().contains_wave(1));
    assert!(state.steady_authorities_sets().contains(2, &member(1)));
}

#[test]
fn cleanup_drops_the_waves_of_both_regimes() {
    let mut state = chain(1);
    for wave in 1..=4u64 {
        state.add_steady_authority(wave, member(1));
        state.add_fallback_authority(wave, member(2));
    }
    // Round 5 is in wave 3.
    state.cleanup(&5);
    for wave in 0..=3u64 {
        assert!(!state.steady_authorities_sets().contains_wave(wave));
        assert!(!state.fallback_authorities_sets().contains_wave(wave));
    }
    assert!(state.steady_authorities_sets().contains(4, &member(1)));
    assert!(state.fallback_authorities_sets().contains(4, &member(2)));
    assert_eq!(state.steady_authorities_sets().len(), 1);
    assert_eq!(state.fallback_authorities_sets().len(), 1);
}

#[test]
fn cleanup_past_the_last_round_empties_the_dag_for_good() {
    let mut state = chain(3);
    state.cleanup(&10);
    assert_eq!(state.dag().len(), 0);
    assert!(!state.dag().contains_round(0));
    assert_eq!(state.steady_authorities_sets().len(), 0);
    // Genesis does not come back: nothing can be admitted at round 1.
    assert!(!state.try_add(&link(1, 1)));
    assert!(!state.try_add(&link(1, 11)));
    assert_eq!(state.dag().len(), 0);
}

#[test]
fn cleanup_of_round_zero_drops_genesis_and_keeps_wave_one() {
    let mut state = chain(1);
    state.cleanup(&0);
    assert!(!state.dag().contains_round(0));
    assert!(state.dag().contains_round(1));
    assert!(state.steady_authorities_sets().contains_wave(1));
    assert_eq!(state.steady_authorities_sets().get(1).unwrap().len(), 2);
}

#[test]
fn cleanup_is_idempotent() {
    let mut state = chain(4);
    state.cleanup(&2);
    let rounds = state.dag().len();
    state.cleanup(&2);
    assert_eq!(state.dag().len(), rounds);
    assert!(state.dag().contains_round(3));
    assert!(state.dag().contains_round(4));
    assert_eq!(state.dag().round(3).unwrap().len(), 2);
}

#[test]
fn cleanup_with_an_earlier_round_brings_nothing_back() {
    let mut state = chain(4);
    state.cleanup(&3);
    state.cleanup(&1);
    assert_eq!(state.dag().len(), 1);
    assert!(state.dag().contains_round(4));
    assert!(!state.dag().contains_round(2));
    assert!(!state.dag().contains_round(3));
    assert!(!state.steady_authorities_sets().contains_wave(1));
}

#[test]
fn cleanup_at_the_last_round_of_all() {
    let mut state = chain(2);
    state.add_steady_authority(u64::MAX, member(1));
    state.add_steady_authority(1u64 << 63, member(1));
    state.cleanup(&u64::MAX);
    assert_eq!(state.dag().len(), 0);
    // The wave of the last round is 2^63.
    assert!(!state.steady_authorities_sets().contains_wave(1u64 << 63));
    assert!(state.steady_authorities_sets().contains_wave(u64::MAX));
}

#[test]
fn admission_goes_on_after_cleanup() {
    let mut state = chain(3);
    state.cleanup(&2);
    assert!(state.try_add(&link(1, 4)));
    assert!(!state.try_add(&link(1, 3 - 1)));
    assert_eq!(state.dag().len(), 2);
}

#[test]
fn wave_of_a_round() {
    assert_eq!(wave_of(0), 0);
    assert_eq!(wave_of(1), 1);
    assert_eq!(wave_of(2), 1);
    assert_eq!(wave_of(3), 2);
    assert_eq!(wave_of(4), 2);
    assert_eq!(wave_of(5), 3);
    assert_eq!(wave_of(u64::MAX - 1), (1u64 << 63) - 1);
    assert_eq!(wave_of(u64::MAX), 1u64 << 63);
}
