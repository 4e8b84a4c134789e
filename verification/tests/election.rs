use dolphin_core::consensus::certificate::Certificate;
use dolphin_core::consensus::committee::Committee;
use dolphin_core::consensus::election::{compute_fallback_coin, compute_steady_seed, elected_place};
use dolphin_core::consensus::key_set::KeySet;
use dolphin_core::consensus::virtual_state::VirtualState;
use dolphin_core::identity::{rank_bytes, same_bytes, Digest, PublicKey, Rank};

fn name(tag: u8) -> PublicKey {
    PublicKey { bytes: [tag; 32] }
}

fn mark(tag: u8, round: u64) -> Digest {
    let mut bytes = [0u8; 32];
    bytes[0] = tag;
    bytes[1] = round as u8;
    Digest { bytes }
}

fn block(tag: u8, round: u64, tags: &[u8]) -> Certificate {
    Certificate {
        origin: name(tag),
        digest: mark(tag, round),
        round,
        virtual_round: round,
        virtual_parents: if round == 0 {
            Vec::new()
        } else {
            tags.iter().map(|t| mark(*t, round - 1)).collect()
        },
    }
}

/// A state in which every authority has a certificate at rounds 0 to `last`.
fn full_dag(tags: &[u8], last: u64) -> VirtualState {
    let committee = Committee::new(tags.iter().map(|t| name(*t)).collect());
    let genesis = tags.iter().map(|t| block(*t, 0, tags)).collect();
    let mut state = VirtualState::new(committee, genesis);
    for round in 1..=last {
        for tag in tags {
            assert!(state.try_add(&block(*tag, round, tags)));
        }
    }
    state
}

const A: u8 = 0x0a;
const B: u8 = 0x0b;
const C: u8 = 0x0c;
const D: u8 = 0x0d;

#[test]
fn steady_leader_cycling() {
    let state = full_dag(&[A, B, C, D], 8);
    let expected = [B, B, C, C, D, D, A, A];
    for round in 1..=8u64 {
        let (digest, leader) = state.steady_leader(round).unwrap();
        assert_eq!(leader.origin(), name(expected[round as usize - 1]));
        assert_eq!(*digest, mark(expected[round as usize - 1], round));
        assert_eq!(leader.virtual_round(), round);
    }
    assert_eq!(state.steady_leader(0).unwrap().1.origin(), name(A));
}

#[test]
fn fallback_leader_cycling() {
    let state = full_dag(&[A, B, C, D], 8);
    let expected = [A, A, A, B, B, B, B, C, C];
    for round in 0..=8u64 {
        let (digest, leader) = state.fallback_leader(round).unwrap();
        assert_eq!(leader.origin(), name(expected[round as usize]));
        assert_eq!(*digest, mark(expected[round as usize], round));
    }
}

#[test]
fn committee_order_does_not_depend_on_how_it_was_listed() {
    let state = full_dag(&[D, B, A, C], 8);
    let expected = [B, B, C, C, D, D, A, A];
    for round in 1..=8u64 {
        assert_eq!(state.steady_leader(round).unwrap().1.origin(), name(expected[round as usize - 1]));
    }
}

#[test]
fn seeds_and_coins() {
    let seeds: Vec<u64> = (1..=8u64).map(|r| compute_steady_seed(r, false)).collect();
    assert_eq!(seeds, vec![1, 1, 2, 2, 3, 3, 4, 4]);
    let coins: Vec<u64> = (0..=8u64).map(|r| compute_fallback_coin(r, false)).collect();
    assert_eq!(coins, vec![0, 0, 0, 1, 1, 1, 1, 2, 2]);
    assert_eq!(compute_steady_seed(0, false), 0);
    assert_eq!(compute_steady_seed(u64::MAX, false), 1u64 << 63);
    assert_eq!(compute_steady_seed(u64::MAX - 1, false), (1u64 << 63) - 1);
    assert_eq!(compute_fallback_coin(u64::MAX, false), 1u64 << 62);
    assert_eq!(compute_fallback_coin(u64::MAX - 1, false), (1u64 << 62) - 1);
    assert_eq!(compute_steady_seed(7, true), 0);
    assert_eq!(compute_fallback_coin(u64::MAX, true), 0);
    assert_eq!(elected_place(0, 4), 0);
    assert_eq!(elected_place(4, 4), 0);
    assert_eq!(elected_place(7, 4), 3);
    assert_eq!(elected_place(1u64 << 63, 3), 2);
    assert_eq!(elected_place(u64::MAX, 1), 0);
}

#[test]
fn single_authority_always_leads() {
    let state = full_dag(&[C], 12);
    for round in 0..=12u64 {
        assert_eq!(state.steady_leader(round).unwrap().1.origin(), name(C));
        assert_eq!(state.fallback_leader(round).unwrap().1.origin(), name(C));
    }
    assert!(state.steady_leader(13).is_none());
}

#[test]
fn leader_without_a_certificate_gives_nothing() {
    let committee = Committee::new(vec![name(A), name(B)]);
    let mut state = VirtualState::new(committee, vec![block(A, 0, &[]), block(B, 0, &[])]);
    // Round 1 elects B, who has nothing there; round 2 is not stored.
    assert!(state.try_add(&block(A, 1, &[A, B])));
    assert!(state.steady_leader(1).is_none());
    assert!(state.steady_leader(2).is_none());
    assert!(state.fallback_leader(1).is_some());
    assert!(state.try_add(&block(B, 1, &[A])));
    assert_eq!(state.steady_leader(1).unwrap().0, mark(B, 1));
    assert!(state.steady_leader(u64::MAX).is_none());
    assert!(state.fallback_leader(u64::MAX).is_none());
}

#[test]
fn asking_twice_gives_the_same_leader() {
    let mut state = full_dag(&[A, B, C], 6);
    for round in 0..=7u64 {
        let first = state.steady_leader(round).map(|(d, c)| (*d, c.origin()));
        let second = state.steady_leader(round).map(|(d, c)| (*d, c.origin()));
        assert_eq!(first, second);
        let first = state.fallback_leader(round).map(|(d, c)| (*d, c.origin()));
        let second = state.fallback_leader(round).map(|(d, c)| (*d, c.origin()));
        assert_eq!(first, second);
    }
    // The authority sets have no part in it.
    let before = state.steady_leader(3).map(|(d, _)| *d);
    state.add_steady_authority(2, name(A));
    state.add_fallback_authority(2, name(B));
    assert_eq!(state.steady_leader(3).map(|(d, _)| *d), before);
}

#[test]
fn every_leader_is_of_the_committee_and_every_authority_leads() {
    let state = full_dag(&[A, B, C], 12);
    let mut steady = Vec::new();
    let mut fallback = Vec::new();
    for round in 0..=12u64 {
        let leader = state.steady_leader(round).unwrap().1.origin();
        assert!(state.committee().contains(&leader));
        steady.push(leader);
        let leader = state.fallback_leader(round).unwrap().1.origin();
        assert!(state.committee().contains(&leader));
        fallback.push(leader);
    }
    for tag in [A, B, C] {
        assert!(steady.contains(&name(tag)));
        assert!(fallback.contains(&name(tag)));
    }
    // Place i leads round 2i - 1 in the steady state and 4i - 1 in fallback.
    assert_eq!(steady[1], name(B));
    assert_eq!(steady[3], name(C));
    assert_eq!(fallback[3], name(B));
    assert_eq!(fallback[7], name(C));
    assert_eq!(fallback[11], name(A));
}

#[test]
fn pinned_elections_elect_the_first_authority() {
    let mut state = full_dag(&[D, A, B], 6);
    state.pin_elections(true);
    assert!(state.is_pinned());
    for round in 0..=6u64 {
        assert_eq!(state.steady_leader(round).unwrap().1.origin(), name(A));
        assert_eq!(state.fallback_leader(round).unwrap().1.origin(), name(A));
    }
    state.pin_elections(false);
    assert_eq!(state.steady_leader(1).unwrap().1.origin(), name(B));
}

#[test]
fn committee_is_ascending_and_without_repeats() {
    let committee = Committee::new(vec![name(C), name(A), name(D), name(A), name(B), name(C)]);
    assert_eq!(committee.size(), 4);
    assert_eq!(committee.authority(0), name(A));
    assert_eq!(committee.authority(1), name(B));
    assert_eq!(committee.authority(2), name(C));
    assert_eq!(committee.authority(3), name(D));
    assert!(committee.contains(&name(B)));
    assert!(!committee.contains(&name(0x0e)));
    assert_eq!(committee.authorities().len(), 4);
    assert_eq!(Committee::new(Vec::new()).size(), 0);
}

#[test]
fn key_sets_keep_byte_order() {
    let mut low = [0u8; 32];
    low[31] = 0xff;
    let mut high = [0u8; 32];
    high[0] = 1;
    let mut middle = [0u8; 32];
    middle[30] = 1;
    let mut set = KeySet::new();
    assert!(set.insert(PublicKey { bytes: high }));
    assert!(set.insert(PublicKey { bytes: low }));
    assert!(set.insert(PublicKey { bytes: middle }));
    assert!(!set.insert(PublicKey { bytes: low }));
    assert_eq!(set.len(), 3);
    // The first byte weighs most.
    assert_eq!(set.get(0), PublicKey { bytes: low });
    assert_eq!(set.get(1), PublicKey { bytes: middle });
    assert_eq!(set.get(2), PublicKey { bytes: high });
    assert!(set.contains(&PublicKey { bytes: middle }));
    assert!(!set.contains(&PublicKey { bytes: [0u8; 32] }));
    let copy = set.clone();
    assert_eq!(copy.len(), 3);
    assert_eq!(copy.get(2), PublicKey { bytes: high });
}

#[test]
fn identifiers_rank_by_their_first_difference() {
    let zero = [0u8; 32];
    let mut last = [0u8; 32];
    last[31] = 1;
    let mut first = [0u8; 32];
    first[0] = 1;
    assert_eq!(rank_bytes(&zero, &zero), Rank::Same);
    assert_eq!(rank_bytes(&zero, &last), Rank::Before);
    assert_eq!(rank_bytes(&last, &zero), Rank::After);
    assert_eq!(rank_bytes(&last, &first), Rank::Before);
    assert_eq!(rank_bytes(&first, &last), Rank::After);
    assert_eq!(name(A).rank(&name(B)), Rank::Before);
    assert_eq!(name(B).rank(&name(B)), Rank::Same);
    assert_eq!(name(B).rank(&name(A)), Rank::After);
    assert!(same_bytes(&last, &last));
    assert!(!same_bytes(&last, &zero));
    assert!(name(A) == name(A));
    assert!(name(A) != name(B));
    assert!(Digest { bytes: last } != Digest { bytes: zero });
    // The order of the library is the order that the type derives.
    assert!(PublicKey { bytes: last } < PublicKey { bytes: first });
    assert!(name(A) < name(B));
}
