//! The virtual DAG: a map from round to the certificates of that round, by
//! author.

use crate::consensus::certificate::{Certificate, CertificateView};
use crate::consensus::round_map::{kept_after, retain_after};
use crate::consensus::round_slice::{slot_for, slot_of, slots_match, RoundSlice, Slot};
use crate::identity::{Digest, PublicKey};
use crate::rounds::Round;
use std::collections::HashMap;
use vstd::prelude::*;

verus! {

/// The mathematical value of the DAG: for each stored round, its slots.
pub type DagView = Map<Round, Map<PublicKey, Slot>>;

/// The slots of a round, empty where the round is not stored.
pub open spec fn round_or_empty(dag: DagView, round: Round) -> Map<PublicKey, Slot> {
    if dag.contains_key(round) {
        dag[round]
    } else {
        Map::empty()
    }
}

/// What the slot of `author` at `round` holds, if anything.
pub open spec fn slot_at(dag: DagView, round: Round, author: PublicKey) -> Option<Slot> {
    if dag.contains_key(round) && dag[round].contains_key(author) {
        Some(dag[round][author])
    } else {
        None
    }
}

/// The DAG after a certificate was put in the slot of its author at `round`.
pub open spec fn with_certificate(
    dag: DagView,
    round: Round,
    certificate: CertificateView,
) -> DagView {
    dag.insert(round, round_or_empty(dag, round).insert(certificate.origin, slot_for(certificate)))
}

/// The mathematical value of what a lookup returned.
pub open spec fn found_slot(found: Option<&(Digest, Certificate)>) -> Option<Slot> {
    match found {
        Some(entry) => Some(slot_of(*entry)),
        None => None,
    }
}

/// The virtual DAG.
#[derive(Debug)]
pub struct Dag {
    rounds: HashMap<Round, RoundSlice>,
}

impl View for Dag {
    type V = DagView;

    closed spec fn view(&self) -> DagView {
        Map::new(|round: Round| self.rounds@.contains_key(round), |round: Round| self.rounds@[round]@)
    }
}

impl Dag {
    /// Every stored round is well-formed.
    pub closed spec fn wf(&self) -> bool {
        forall|round: Round| #[trigger]
            self.rounds@.contains_key(round) ==> self.rounds@[round].wf()
    }

    /// In a well-formed DAG every slot holds a certificate of the author that
    /// keys it, next to that certificate's own digest.
    pub proof fn lemma_wf(&self, round: Round)
        requires
            self.wf(),
            self@.contains_key(round),
        ensures
            slots_match(self@[round]),
            self@[round].dom().finite(),
    {
        self.rounds@[round].lemma_wf();
    }

    /// The DAG without any round.
    pub fn new() -> (dag: Dag)
        ensures
            dag.wf(),
            dag@ == Map::<Round, Map<PublicKey, Slot>>::empty(),
    {
        let dag = Dag { rounds: HashMap::new() };
        assert(dag@ =~= Map::<Round, Map<PublicKey, Slot>>::empty());
        dag
    }

    /// The number of stored rounds.
    pub fn len(&self) -> (count: usize)
        ensures
            count == self@.dom().len(),
    {
        assert(self@.dom() =~= self.rounds@.dom());
        self.rounds.len()
    }

    /// Tells whether the round is stored.
    pub fn contains_round(&self, round: Round) -> (found: bool)
        ensures
            found == self@.contains_key(round),
    {
        self.rounds.contains_key(&round)
    }

    /// The certificates of a round, if the round is stored.
    pub fn round(&self, round: Round) -> (slice: Option<&RoundSlice>)
        requires
            self.wf(),
        ensures
            match slice {
                Some(slice) => self@.contains_key(round) && slice@ == self@[round] && slice.wf(),
                None => !self@.contains_key(round),
            },
    {
        self.rounds.get(&round)
    }

    /// The certificate of `author` at `round`, with its digest.
    pub fn get(&self, round: Round, author: &PublicKey) -> (slot: Option<&(Digest, Certificate)>)
        requires
            self.wf(),
        ensures
            found_slot(slot) == slot_at(self@, round, *author),
    {
        match self.rounds.get(&round) {
            Some(slice) => slice.get(author),
            None => None,
        }
    }

    /// Makes `slice` the content of `round`, in place of what was stored
    /// there.
    pub fn put_round(&mut self, round: Round, slice: RoundSlice)
        requires
            old(self).wf(),
            slice.wf(),
        ensures
            final(self).wf(),
            final(self)@ == old(self)@.insert(round, slice@),
    {
        self.rounds.insert(round, slice);
        assert(self@ =~= old(self)@.insert(round, slice@));
    }

    /// Puts a certificate in the slot of its author at `round`, in place of
    /// what the author had there. The round is created where it is missing.
    pub fn put(&mut self, round: Round, certificate: Certificate)
        requires
            old(self).wf(),
        ensures
            final(self).wf(),
            final(self)@ == with_certificate(old(self)@, round, certificate@),
    {
        let mut slice = match self.rounds.remove(&round) {
            Some(slice) => slice,
            None => RoundSlice::new(),
        };
        assert(slice@ == round_or_empty(old(self)@, round));
        slice.insert(certificate);
        self.rounds.insert(round, slice);
        assert(self@ =~= with_certificate(old(self)@, round, certificate@));
    }

    /// Drops every round that is not after `round`.
    pub fn retain_after(&mut self, round: Round)
        requires
            old(self).wf(),
        ensures
            final(self).wf(),
            final(self)@ == kept_after(old(self)@, round),
    {
        retain_after(&mut self.rounds, round);
        assert(self@ =~= kept_after(old(self)@, round));
    }
}

} // verus!
