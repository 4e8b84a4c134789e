use dolphin_core::consensus::certificate::Certificate;
use dolphin_core::consensus::committee::Committee;
use dolphin_core::consensus::virtual_state::VirtualState;
use dolphin_core::identity::{Digest, PublicKey};

fn author(tag: u8) -> PublicKey {
    PublicKey { bytes: [tag; 32] }
}

fn digest_of(tag: u8, round: u64) -> Digest {
    let mut bytes = [0u8; 32];
    bytes[0] = tag;
    bytes[1] = round as u8;
    Digest { bytes }
}

fn certificate(tag: u8, round: u64, parents: &[u8]) -> Certificate {
    Certificate {
        origin: author(tag),
        digest: digest_of(tag, round),
        round,
        virtual_round: round,
        virtual_parents: parents.iter().map(|p| digest_of(*p, round.wrapping_sub(1))).collect(),
    }
}

fn four_authorities() -> VirtualState {
    let committee = Committee::new(vec![author(1), author(2), author(3), author(4)]);
    let genesis = vec![
        certificate(1, 0, &[]),
        certificate(2, 0, &[]),
        certificate(3, 0, &[]),
        certificate(4, 0, &[]),
    ];
    VirtualState::new(committee, genesis)
}

#[test]
fn new_state_holds_genesis_and_the_first_steady_wave() {
    let state = four_authorities();
    assert_eq!(state.dag().len(), 1);
    assert!(state.dag().contains_round(0));
    assert_eq!(state.dag().round(0).unwrap().len(), 4);
    for tag in 1..=4u8 {
        let (digest, stored) = state.dag().get(0, &author(tag)).unwrap();
        assert_eq!(*digest, digest_of(tag, 0));
        assert_eq!(stored.origin(), author(tag));
    }
    assert_eq!(state.steady_authorities_sets().len(), 1);
    let first_wave = state.steady_authorities_sets().get(1).unwrap();
    assert_eq!(first_wave.len(), 4);
    for tag in 1..=4u8 {
        assert!(state.steady_authorities_sets().contains(1, &author(tag)));
    }
    assert!(!state.steady_authorities_sets().contains(1, &author(9)));
    assert_eq!(state.fallback_authorities_sets().len(), 0);
    assert_eq!(state.committee().size(), 4);
    assert!(!state.is_pinned());
}

#[test]
fn admission_happy_path() {
    let mut state = four_authorities();
    for tag in 1..=4u8 {
        assert!(state.try_add(&certificate(tag, 1, &[1, 2, 3, 4])));
    }
    assert_eq!(state.dag().round(1).unwrap().len(), 4);
    assert_eq!(state.dag().len(), 2);
}

#[test]
fn admission_missing_self_parent() {
    let mut state = four_authorities();
    for tag in 2..=4u8 {
        assert!(state.try_add(&certificate(tag, 1, &[1, 2, 3, 4])));
    }
    // The author of the new certificate has nothing at round 1.
    assert!(!state.try_add(&certificate(1, 2, &[2, 3, 4])));
    assert_eq!(state.dag().len(), 2);
    assert!(!state.dag().contains_round(2));
    assert_eq!(state.dag().round(1).unwrap().len(), 3);
    assert_eq!(state.dag().round(0).unwrap().len(), 4);
}

#[test]
fn admission_asks_for_the_author_not_for_a_parent_of_its_own() {
    let mut state = four_authorities();
    for tag in 1..=4u8 {
        assert!(state.try_add(&certificate(tag, 1, &[1, 2, 3, 4])));
    }
    // The author has a certificate at round 1; the parents need not name it.
    assert!(state.try_add(&certificate(1, 2, &[2, 3, 4])));
    assert_eq!(state.dag().round(2).unwrap().len(), 1);
}

#[test]
fn round_zero_is_rejected() {
    let mut state = four_authorities();
    assert!(!state.try_add(&certificate(1, 0, &[])));
    let mut with_parents = certificate(1, 0, &[]);
    with_parents.virtual_parents = vec![digest_of(1, 0)];
    assert!(!state.try_add(&with_parents));
    assert_eq!(state.dag().len(), 1);
    assert_eq!(state.dag().round(0).unwrap().len(), 4);
}

#[test]
fn round_one_with_parents_in_genesis_succeeds() {
    let mut state = four_authorities();
    assert!(state.try_add(&certificate(3, 1, &[1, 2, 3, 4])));
    assert!(state.try_add(&certificate(2, 1, &[4])));
    assert!(state.try_add(&certificate(1, 1, &[])));
}

#[test]
fn round_one_by_an_author_without_genesis_is_rejected() {
    let mut state = four_authorities();
    assert!(!state.try_add(&certificate(9, 1, &[1, 2, 3, 4])));
    assert!(!state.try_add(&certificate(9, 1, &[])));
    assert!(!state.dag().contains_round(1));
}

#[test]
fn missing_previous_round_is_rejected() {
    let mut state = four_authorities();
    assert!(!state.try_add(&certificate(1, 2, &[])));
    assert!(!state.try_add(&certificate(1, 5, &[1, 2, 3, 4])));
    assert!(!state.try_add(&certificate(1, u64::MAX, &[])));
    assert_eq!(state.dag().len(), 1);
}

#[test]
fn unknown_parent_is_rejected() {
    let mut state = four_authorities();
    assert!(!state.try_add(&certificate(1, 1, &[1, 2, 3, 7])));
    assert!(!state.try_add(&certificate(1, 1, &[7])));
    // A digest of another round is no parent either.
    let mut wrong_round = certificate(1, 1, &[]);
    wrong_round.virtual_parents = vec![digest_of(1, 1)];
    assert!(!state.try_add(&wrong_round));
    assert!(!state.dag().contains_round(1));
}

#[test]
fn admitted_certificate_fills_the_slot_of_its_author() {
    let mut state = four_authorities();
    let offered = certificate(2, 1, &[1, 2]);
    assert!(state.try_add(&offered));
    let (digest, stored) = state.dag().get(1, &author(2)).unwrap();
    assert_eq!(*digest, offered.digest());
    assert_eq!(stored.origin(), offered.origin());
    assert_eq!(stored.digest(), offered.digest());
    assert_eq!(stored.round(), 1);
    assert_eq!(stored.virtual_round(), 1);
    assert_eq!(stored.virtual_parents(), offered.virtual_parents());
    assert!(state.dag().get(1, &author(1)).is_none());
    assert!(state.dag().get(2, &author(2)).is_none());
}

#[test]
fn later_certificate_of_one_slot_replaces_the_earlier() {
    let mut state = four_authorities();
    assert!(state.try_add(&certificate(2, 1, &[1, 2])));
    let mut second = certificate(2, 1, &[3, 4]);
    second.digest = Digest { bytes: [0xee; 32] };
    assert!(state.try_add(&second));
    let slice = state.dag().round(1).unwrap();
    assert_eq!(slice.len(), 1);
    let (digest, stored) = slice.get(&author(2)).unwrap();
    assert_eq!(*digest, Digest { bytes: [0xee; 32] });
    assert_eq!(stored.virtual_parents(), &vec![digest_of(3, 0), digest_of(4, 0)]);
    assert!(slice.contains_digest(&Digest { bytes: [0xee; 32] }));
    assert!(!slice.contains_digest(&digest_of(2, 1)));
}

#[test]
fn rejection_leaves_the_state_as_it_was() {
    let mut state = four_authorities();
    assert!(state.try_add(&certificate(1, 1, &[1])));
    assert!(state.add_fallback_authority(3, author(2)));
    assert!(!state.try_add(&certificate(2, 2, &[1])));
    assert_eq!(state.dag().len(), 2);
    assert_eq!(state.dag().round(0).unwrap().len(), 4);
    assert_eq!(state.dag().round(1).unwrap().len(), 1);
    assert!(state.dag().get(1, &author(1)).is_some());
    assert_eq!(state.steady_authorities_sets().len(), 1);
    assert_eq!(state.fallback_authorities_sets().len(), 1);
    assert!(state.fallback_authorities_sets().contains(3, &author(2)));
}

#[test]
fn certificates_may_come_in_any_order_and_be_offered_again() {
    let mut state = four_authorities();
    let second = certificate(1, 2, &[1]);
    let first = certificate(1, 1, &[1]);
    assert!(!state.try_add(&second));
    assert!(state.try_add(&first));
    assert!(state.try_add(&second));
    assert!(state.dag().get(2, &author(1)).is_some());
}

#[test]
fn later_genesis_certificate_of_one_author_wins() {
    let committee = Committee::new(vec![author(1)]);
    let mut late = certificate(1, 0, &[]);
    late.digest = Digest { bytes: [0xaa; 32] };
    let state = VirtualState::new(committee, vec![certificate(1, 0, &[]), late]);
    assert_eq!(state.dag().round(0).unwrap().len(), 1);
    assert_eq!(state.dag().get(0, &author(1)).unwrap().0, Digest { bytes: [0xaa; 32] });
}

#[test]
fn authority_sets_store_what_the_commit_rule_records() {
    let mut state = four_authorities();
    assert!(state.add_steady_authority(2, author(3)));
    assert!(!state.add_steady_authority(2, author(3)));
    assert!(!state.add_steady_authority(1, author(4)));
    assert!(state.add_fallback_authority(2, author(1)));
    assert!(state.steady_authorities_sets().contains(2, &author(3)));
    assert!(!state.steady_authorities_sets().contains(2, &author(1)));
    assert!(!state.steady_authorities_sets().contains(7, &author(1)));
    assert!(state.fallback_authorities_sets().contains(2, &author(1)));
    assert_eq!(state.steady_authorities_sets().get(2).unwrap().len(), 1);
    assert!(state.steady_authorities_sets().contains_wave(2));
    assert!(!state.fallback_authorities_sets().contains_wave(1));
}
