use dolphin_core::consensus::certificate::Certificate;
use dolphin_core::consensus::dag::Dag;
use dolphin_core::consensus::key_set::KeySet;
use dolphin_core::consensus::round_slice::RoundSlice;
use dolphin_core::consensus::wave_sets::WaveSets;
use dolphin_core::identity::{Digest, PublicKey};

fn signer(tag: u8) -> PublicKey {
    PublicKey { bytes: [tag; 32] }
}

fn print_of(tag: u8) -> Digest {
    Digest { bytes: [tag; 32] }
}

fn record(author: u8, digest: u8, round: u64) -> Certificate {
    Certificate {
        origin: signer(author),
        digest: print_of(digest),
        round,
        virtual_round: round,
        virtual_parents: Vec::new(),
    }
}

#[test]
fn round_slice_keeps_one_certificate_for_each_author() {
    let mut slice = RoundSlice::new();
    assert_eq!(slice.len(), 0);
    assert!(slice.get(&signer(1)).is_none());
    slice.insert(record(1, 10, 4));
    slice.insert(record(2, 20, 4));
    slice.insert(record(1, 11, 4));
    assert_eq!(slice.len(), 2);
    assert_eq!(slice.get(&signer(1)).unwrap().0, print_of(11));
    assert_eq!(slice.get(&signer(1)).unwrap().1.digest(), print_of(11));
    assert_eq!(slice.get(&signer(2)).unwrap().0, print_of(20));
    assert!(slice.contains_key(&signer(2)));
    assert!(!slice.contains_key(&signer(3)));
    assert!(slice.contains_digest(&print_of(11)));
    assert!(slice.contains_digest(&print_of(20)));
    assert!(!slice.contains_digest(&print_of(10)));
}

#[test]
fn round_slice_from_a_list_of_certificates() {
    let slice = RoundSlice::from_certificates(vec![
        record(1, 10, 0),
        record(2, 20, 0),
        record(1, 12, 0),
        record(3, 30, 0),
    ]);
    assert_eq!(slice.len(), 3);
    assert_eq!(slice.get(&signer(1)).unwrap().0, print_of(12));
    assert_eq!(slice.get(&signer(3)).unwrap().0, print_of(30));
    assert_eq!(RoundSlice::from_certificates(Vec::new()).len(), 0);
}

#[test]
fn dag_stores_rounds_and_drops_the_early_ones() {
    let mut dag = Dag::new();
    assert_eq!(dag.len(), 0);
    assert!(dag.round(0).is_none());
    dag.put(5, record(1, 15, 5));
    dag.put(5, record(2, 25, 5));
    dag.put(6, record(1, 16, 6));
    dag.put(9, record(3, 39, 9));
    assert_eq!(dag.len(), 3);
    assert_eq!(dag.round(5).unwrap().len(), 2);
    assert_eq!(dag.get(5, &signer(2)).unwrap().0, print_of(25));
    assert!(dag.get(6, &signer(2)).is_none());
    assert!(dag.get(7, &signer(1)).is_none());
    dag.put_round(5, RoundSlice::from_certificates(vec![record(4, 45, 5)]));
    assert_eq!(dag.round(5).unwrap().len(), 1);
    assert!(dag.get(5, &signer(1)).is_none());
    dag.retain_after(5);
    assert_eq!(dag.len(), 2);
    assert!(!dag.contains_round(5));
    assert!(dag.contains_round(6));
    assert!(dag.contains_round(9));
    dag.retain_after(8);
    assert_eq!(dag.len(), 1);
    assert_eq!(dag.get(9, &signer(3)).unwrap().1.digest(), print_of(39));
    dag.retain_after(9);
    assert_eq!(dag.len(), 0);
}

#[test]
fn wave_sets_store_members_by_wave() {
    let mut sets = WaveSets::new();
    assert_eq!(sets.len(), 0);
    assert!(sets.get(1).is_none());
    assert!(!sets.contains(1, &signer(1)));
    assert!(sets.insert(1, signer(1)));
    assert!(sets.insert(1, signer(2)));
    assert!(!sets.insert(1, signer(1)));
    assert!(sets.insert(3, signer(1)));
    assert_eq!(sets.len(), 2);
    assert_eq!(sets.get(1).unwrap().len(), 2);
    sets.put(1, KeySet::from_keys(&vec![signer(7)]));
    assert!(sets.contains(1, &signer(7)));
    assert!(!sets.contains(1, &signer(1)));
    sets.put(2, KeySet::new());
    assert!(sets.contains_wave(2));
    assert_eq!(sets.get(2).unwrap().len(), 0);
    sets.retain_after(1);
    assert!(!sets.contains_wave(1));
    assert!(sets.contains_wave(2));
    assert!(sets.contains(3, &signer(1)));
    sets.retain_after(0);
    assert_eq!(sets.len(), 2);
    sets.retain_after(u64::MAX);
    assert_eq!(sets.len(), 0);
}

#[test]
fn certificate_clone_keeps_every_field() {
    let mut source = record(1, 10, 3);
    source.round = 8;
    source.virtual_parents = vec![print_of(5), print_of(6), print_of(5)];
    let copy = source.clone();
    assert_eq!(copy.origin(), signer(1));
    assert_eq!(copy.digest(), print_of(10));
    assert_eq!(copy.round(), 8);
    assert_eq!(copy.virtual_round(), 3);
    assert_eq!(copy.virtual_parents(), &vec![print_of(5), print_of(6), print_of(5)]);
}
