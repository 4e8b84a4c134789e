//! The virtual consensus state, interpreted from the metadata that
//! certificates carry.

use crate::consensus::certificate::{Certificate, CertificateView};
use crate::consensus::committee::Committee;
use crate::consensus::dag::{found_slot, slot_at, with_certificate, Dag, DagView};
use crate::consensus::election::{
    compute_fallback_coin, compute_steady_seed, elected, elected_place, fallback_coin, steady_seed,
};
use crate::consensus::key_set::ascending;
use crate::consensus::round_map::kept_after;
use crate::consensus::round_slice::{filled, has_digest, slot_for, views, RoundSlice, Slot};
use crate::consensus::wave_sets::{wave_or_empty, WaveSets, WaveSetsView};
use crate::identity::{Digest, PublicKey};
use crate::rounds::{spec_wave_of, wave_of, Round};
use vstd::prelude::*;

verus! {

/// The mathematical value of the consensus state.
pub struct StateView {
    /// The committee, in ascending order of identifier.
    pub committee: Seq<PublicKey>,
    /// The virtual DAG.
    pub dag: DagView,
    /// The authorities in the steady state, by wave.
    pub steady: WaveSetsView,
    /// The authorities in the fallback state, by wave.
    pub fallback: WaveSetsView,
    /// Whether the elections are pinned to seed 0.
    pub pinned: bool,
}

/// What holds of every state that the operations below produce: the
/// committee is in ascending order, every slot of the DAG holds a certificate
/// of the author that keys it, next to that certificate's own digest, and
/// after round 0 every certificate stands at its own virtual round.
pub open spec fn consistent(state: StateView) -> bool {
    &&& ascending(state.committee)
    &&& forall|round: Round, author: PublicKey|
        state.dag.contains_key(round) && #[trigger] state.dag[round].contains_key(author) ==> {
            let slot = state.dag[round][author];
            &&& slot == slot_for(slot.1)
            &&& slot.1.origin == author
            &&& round >= 1 ==> slot.1.virtual_round == round
        }
}

/// The admission rule. A certificate enters the DAG exactly when it has
/// virtual metadata, the round before its own is stored, each of its parents
/// is the digest of a certificate of that round, and its author has a
/// certificate there too.
pub open spec fn admissible(dag: DagView, certificate: CertificateView) -> bool {
    let previous = (certificate.virtual_round - 1) as Round;
    &&& certificate.virtual_round >= 1
    &&& dag.contains_key(previous)
    &&& forall|i: int|
        0 <= i < certificate.virtual_parents.len() ==> has_digest(
            dag[previous],
            #[trigger] certificate.virtual_parents[i],
        )
    &&& dag[previous].contains_key(certificate.origin)
}

/// The DAG after a certificate was admitted.
pub open spec fn admitted(dag: DagView, certificate: CertificateView) -> DagView {
    with_certificate(dag, certificate.virtual_round, certificate)
}

/// The state that a committee and its genesis certificates start from: the
/// genesis certificates at round 0, the whole committee in the steady state
/// of wave 1, and nobody in the fallback state.
pub open spec fn initial(committee: Seq<PublicKey>, genesis: Seq<CertificateView>) -> StateView {
    StateView {
        committee,
        dag: Map::<Round, Map<PublicKey, Slot>>::empty().insert(0, filled(genesis)),
        steady: Map::<Round, Set<PublicKey>>::empty().insert(1, committee.to_set()),
        fallback: Map::empty(),
        pinned: false,
    }
}

/// The state after a cleanup: the rounds after the last committed round, and
/// the waves after its wave.
pub open spec fn cleaned(state: StateView, last_committed_round: Round) -> StateView {
    StateView {
        committee: state.committee,
        dag: kept_after(state.dag, last_committed_round),
        steady: kept_after(state.steady, spec_wave_of(last_committed_round)),
        fallback: kept_after(state.fallback, spec_wave_of(last_committed_round)),
        pinned: state.pinned,
    }
}

/// The certificate of the steady-state leader of a round, if the leader has
/// one there. It depends on the committee, the round and the DAG, and on
/// nothing else but the pin.
pub open spec fn spec_steady_leader(state: StateView, round: Round) -> Option<Slot> {
    slot_at(state.dag, round, elected(state.committee, steady_seed(round, state.pinned)))
}

/// The certificate of the fallback leader of a round, if the leader has one
/// there.
pub open spec fn spec_fallback_leader(state: StateView, round: Round) -> Option<Slot> {
    slot_at(state.dag, round, elected(state.committee, fallback_coin(round, state.pinned)))
}

/// The virtual consensus state.
#[derive(Debug)]
pub struct VirtualState {
    /// The committee information.
    committee: Committee,
    /// Whether the elections are pinned to seed 0.
    pinned: bool,
    /// The certificates of every round after the last committed one, by
    /// author. Anything older is dropped by `cleanup`.
    dag: Dag,
    /// The authorities that are in the steady state, by wave.
    steady_authorities_sets: WaveSets,
    /// The authorities that are in the fallback state, by wave.
    fallback_authorities_sets: WaveSets,
}

impl View for VirtualState {
    type V = StateView;

    closed spec fn view(&self) -> StateView {
        StateView {
            committee: self.committee@,
            dag: self.dag@,
            steady: self.steady_authorities_sets@,
            fallback: self.fallback_authorities_sets@,
            pinned: self.pinned,
        }
    }
}

impl VirtualState {
    /// The committee, the DAG and both trackers are well-formed, and after
    /// round 0 every certificate stands at its own virtual round.
    pub closed spec fn wf(&self) -> bool {
        &&& self.committee.wf()
        &&& self.dag.wf()
        &&& self.steady_authorities_sets.wf()
        &&& self.fallback_authorities_sets.wf()
        &&& forall|round: Round, author: PublicKey|
            round >= 1 && self.dag@.contains_key(round) && #[trigger] self.dag@[round].contains_key(
                author,
            ) ==> self.dag@[round][author].1.virtual_round == round
    }

    /// A well-formed state is consistent.
    pub proof fn lemma_wf(&self)
        requires
            self.wf(),
        ensures
            consistent(self@),
    {
        assert forall|round: Round, author: PublicKey|
            self@.dag.contains_key(round) && #[trigger] self@.dag[round].contains_key(author) implies {
            let slot = self@.dag[round][author];
            &&& slot == slot_for(slot.1)
            &&& slot.1.origin == author
            &&& round >= 1 ==> slot.1.virtual_round == round
        } by {
            self.dag.lemma_wf(round);
        }
    }

    /// Creates the state of a committee from its genesis certificates.
    pub fn new(committee: Committee, genesis: Vec<Certificate>) -> (state: VirtualState)
        requires
            committee.wf(),
        ensures
            state.wf(),
            state@ == initial(committee@, views(genesis@)),
    {
        let mut dag = Dag::new();
        dag.put_round(0, RoundSlice::from_certificates(genesis));
        let mut steady = WaveSets::new();
        steady.put(1, committee.authorities().clone());
        VirtualState {
            committee,
            pinned: false,
            dag,
            steady_authorities_sets: steady,
            fallback_authorities_sets: WaveSets::new(),
        }
    }

    /// The committee, which never changes.
    pub fn committee(&self) -> (committee: &Committee)
        ensures
            committee@ == self@.committee,
            self.wf() ==> committee.wf(),
    {
        &self.committee
    }

    /// The virtual DAG, to read.
    pub fn dag(&self) -> (dag: &Dag)
        ensures
            dag@ == self@.dag,
            self.wf() ==> dag.wf(),
    {
        &self.dag
    }

    /// The authorities that are in the steady state, by wave, to read.
    pub fn steady_authorities_sets(&self) -> (sets: &WaveSets)
        ensures
            sets@ == self@.steady,
            self.wf() ==> sets.wf(),
    {
        &self.steady_authorities_sets
    }

    /// The authorities that are in the fallback state, by wave, to read.
    pub fn fallback_authorities_sets(&self) -> (sets: &WaveSets)
        ensures
            sets@ == self@.fallback,
            self.wf() ==> sets.wf(),
    {
        &self.fallback_authorities_sets
    }

    /// Records that `author` is in the steady state in `wave`, and tells
    /// whether that was new.
    pub fn add_steady_authority(&mut self, wave: Round, author: PublicKey) -> (fresh: bool)
        requires
            old(self).wf(),
        ensures
            final(self).wf(),
            final(self)@ == (StateView {
                steady: old(self)@.steady.insert(
                    wave,
                    wave_or_empty(old(self)@.steady, wave).insert(author),
                ),
                ..old(self)@
            }),
            fresh == !wave_or_empty(old(self)@.steady, wave).contains(author),
    {
        self.steady_authorities_sets.insert(wave, author)
    }

    /// Records that `author` is in the fallback state in `wave`, and tells
    /// whether that was new.
    pub fn add_fallback_authority(&mut self, wave: Round, author: PublicKey) -> (fresh: bool)
        requires
            old(self).wf(),
        ensures
            final(self).wf(),
            final(self)@ == (StateView {
                fallback: old(self)@.fallback.insert(
                    wave,
                    wave_or_empty(old(self)@.fallback, wave).insert(author),
                ),
                ..old(self)@
            }),
            fresh == !wave_or_empty(old(self)@.fallback, wave).contains(author),
    {
        self.fallback_authorities_sets.insert(wave, author)
    }

    /// Tells whether the elections are pinned to seed 0.
    pub fn is_pinned(&self) -> (pinned: bool)
        ensures
            pinned == self@.pinned,
    {
        self.pinned
    }

    /// Pins both elections to seed 0, so that the first authority of the
    /// committee leads every round, or lets them follow the round again.
    pub fn pin_elections(&mut self, pinned: bool)
        ensures
            final(self)@ == (StateView { pinned, ..old(self)@ }),
            old(self).wf() ==> final(self).wf(),
    {
        self.pinned = pinned;
    }

    /// Tries to add a certificate to the virtual DAG and returns whether it
    /// was admitted. A certificate that is admitted takes the slot of its
    /// author at its virtual round, in place of what the author had there. A
    /// certificate that is not admitted leaves the state as it was.
    pub fn try_add(&mut self, certificate: &Certificate) -> (ok: bool)
        requires
            old(self).wf(),
        ensures
            final(self).wf(),
            ok == admissible(old(self)@.dag, certificate@),
            certificate@.virtual_round == 0 ==> !ok,
            ok ==> final(self)@ == (StateView {
                dag: admitted(old(self)@.dag, certificate@),
                ..old(self)@
            }),
            ok ==> slot_at(final(self)@.dag, certificate@.virtual_round, certificate@.origin) == Some(
                slot_for(certificate@),
            ),
            !ok ==> final(self)@ == old(self)@,
    {
        let round = certificate.virtual_round();

        // Ensure the certificate contains virtual metadata.
        if round == 0 {
            return false;
        }
        // Ensure all parents are from the previous round, and that one
        // certificate of that round is from the same author.

        let ok = match self.dag.round(round - 1) {
            Some(previous) => {
                let parents = certificate.virtual_parents();
                let mut known = true;
                let mut i: usize = 0;
                while i < parents.len() && known
                    invariant
                        i <= parents.len(),
                        previous.wf(),
                        known <==> forall|j: int|
                            0 <= j < i ==> has_digest(previous@, #[trigger] parents@[j]),
                    decreases parents.len() - i,
                {
                    known = previous.contains_digest(&parents[i]);
                    i += 1;
                }
                known && previous.contains_key(&certificate.origin())
            },
            None => false,
        };

        // Add the certificate to the dag.
        if ok {
            self.dag.put(round, certificate.clone());
        }
        ok
    }

    /// Cleans the state up after a commit: drops every round up to the last
    /// committed one, and every wave up to its wave.
    pub fn cleanup(&mut self, last_committed_round: &Round)
        requires
            old(self).wf(),
        ensures
            final(self).wf(),
            final(self)@ == cleaned(old(self)@, *last_committed_round),
            forall|round: Round|
                round <= *last_committed_round ==> !final(self)@.dag.contains_key(round),
            forall|wave: Round|
                wave <= spec_wave_of(*last_committed_round) ==> !final(self)@.steady.contains_key(wave)
                    && !final(self)@.fallback.contains_key(wave),
            (forall|round: Round| old(self)@.dag.contains_key(round) ==> round <= *last_committed_round)
                ==> final(self)@.dag == Map::<Round, Map<PublicKey, Slot>>::empty(),
    {
        let last_committed_wave = wave_of(*last_committed_round);
        self.dag.retain_after(*last_committed_round);
        self.steady_authorities_sets.retain_after(last_committed_wave);
        self.fallback_authorities_sets.retain_after(last_committed_wave);
        proof {
            if forall|round: Round| old(self)@.dag.contains_key(round) ==> round <= *last_committed_round {
                assert forall|round: Round| !self@.dag.contains_key(round) by {
                    if old(self)@.dag.contains_key(round) {
                        assert(round <= *last_committed_round);
                    }
                }
                assert(self@.dag =~= Map::<Round, Map<PublicKey, Slot>>::empty());
            }
        }
    }

    /// The certificate of the authority at the place that `seed` elects, at
    /// `round`.
    fn leader_at(&self, seed: u64, round: Round) -> (slot: Option<&(Digest, Certificate)>)
        requires
            self.wf(),
            self@.committee.len() > 0,
        ensures
            found_slot(slot) == slot_at(self@.dag, round, elected(self@.committee, seed as int)),
    {
        // Elect the leader.
        let leader = self.committee.authority(elected_place(seed, self.committee.size()));

        // Return its certificate and the certificate's digest.
        self.dag.get(round, &leader)
    }

    /// Returns the certificate, and the certificate's digest, originated by
    /// the steady-state leader of the specified round, if any.
    pub fn steady_leader(&self, round: Round) -> (slot: Option<&(Digest, Certificate)>)
        requires
            self.wf(),
            self@.committee.len() > 0,
        ensures
            found_slot(slot) == spec_steady_leader(self@, round),
    {
        self.leader_at(compute_steady_seed(round, self.pinned), round)
    }

    /// Returns the certificate, and the certificate's digest, originated by
    /// the fallback leader of the specified round, if any.
    pub fn fallback_leader(&self, round: Round) -> (slot: Option<&(Digest, Certificate)>)
        requires
            self.wf(),
            self@.committee.len() > 0,
        ensures
            found_slot(slot) == spec_fallback_leader(self@, round),
    {
        self.leader_at(compute_fallback_coin(round, self.pinned), round)
    }
}

} // verus!
