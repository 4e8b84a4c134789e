//! What holds of admission, cleanup and election for every state.

use crate::consensus::certificate::CertificateView;
use crate::consensus::dag::DagView;
use crate::consensus::election::{elected, fallback_coin, steady_seed};
use crate::consensus::round_slice::{has_digest, Slot};
use crate::consensus::virtual_state::{
    admissible, admitted, cleaned, consistent, spec_fallback_leader, spec_steady_leader, StateView,
};
use crate::identity::PublicKey;
use crate::rounds::{spec_wave_of, Round};
use vstd::arithmetic::div_mod::{lemma_add_mod_noop, lemma_small_mod};
use vstd::prelude::*;

verus! {

/// A certificate without virtual metadata, that is with virtual round 0, is
/// never admitted: round 0 is filled at construction only.
pub proof fn law_round_zero_is_never_admitted(dag: DagView, certificate: CertificateView)
    requires
        certificate.virtual_round == 0,
    ensures
        !admissible(dag, certificate),
{
}

/// A certificate of round 1 is admitted when the genesis round is stored,
/// holds a certificate of its author, and holds a certificate for each of
/// its parents.
pub proof fn law_round_one_extends_genesis(dag: DagView, certificate: CertificateView)
    requires
        certificate.virtual_round == 1,
        dag.contains_key(0),
        dag[0].contains_key(certificate.origin),
        forall|i: int|
            0 <= i < certificate.virtual_parents.len() ==> has_digest(
                dag[0],
                #[trigger] certificate.virtual_parents[i],
            ),
    ensures
        admissible(dag, certificate),
{
}

/// Right after its admission a certificate is linked to the round before:
/// each of its parents is the digest of a certificate stored there, and so
/// is a certificate of its author. Later admissions and cleanups may take
/// those away again.
pub proof fn law_admission_links_to_the_round_before(dag: DagView, certificate: CertificateView)
    requires
        admissible(dag, certificate),
    ensures
        ({
            let previous = (certificate.virtual_round - 1) as Round;
            let after = admitted(dag, certificate);
            &&& after.contains_key(previous)
            &&& after[previous].contains_key(certificate.origin)
            &&& forall|i: int|
                0 <= i < certificate.virtual_parents.len() ==> has_digest(
                    after[previous],
                    #[trigger] certificate.virtual_parents[i],
                )
        }),
{
}

/// Admission keeps a state consistent.
pub proof fn law_admission_keeps_consistency(state: StateView, certificate: CertificateView)
    requires
        consistent(state),
        admissible(state.dag, certificate),
    ensures
        consistent(StateView { dag: admitted(state.dag, certificate), ..state }),
{
}

/// Cleanup keeps a state consistent.
pub proof fn law_cleanup_keeps_consistency(state: StateView, last_committed_round: Round)
    requires
        consistent(state),
    ensures
        consistent(cleaned(state, last_committed_round)),
{
}

/// After a cleanup no round up to the last committed one is stored, and no
/// wave up to its wave, in either regime.
pub proof fn law_cleanup_drops_the_past(state: StateView, last_committed_round: Round)
    ensures
        forall|round: Round|
            round <= last_committed_round ==> !cleaned(state, last_committed_round).dag.contains_key(
                round,
            ),
        forall|wave: Round|
            wave <= spec_wave_of(last_committed_round) ==> !cleaned(
                state,
                last_committed_round,
            ).steady.contains_key(wave) && !cleaned(
                state,
                last_committed_round,
            ).fallback.contains_key(wave),
{
}

/// A cleanup adds nothing: what is stored afterwards was stored before, with
/// the same content. So nothing that was dropped comes back, genesis
/// included.
pub proof fn law_cleanup_never_resurrects(state: StateView, last_committed_round: Round)
    ensures
        cleaned(state, last_committed_round).dag.submap_of(state.dag),
        cleaned(state, last_committed_round).steady.submap_of(state.steady),
        cleaned(state, last_committed_round).fallback.submap_of(state.fallback),
{
}

/// A cleanup past the last stored round empties the DAG.
pub proof fn law_cleanup_past_the_end(state: StateView, last_committed_round: Round)
    requires
        forall|round: Round| state.dag.contains_key(round) ==> round <= last_committed_round,
    ensures
        cleaned(state, last_committed_round).dag == Map::<Round, Map<PublicKey, Slot>>::empty(),
{
    assert forall|round: Round| !cleaned(state, last_committed_round).dag.contains_key(round) by {
        if state.dag.contains_key(round) {
            assert(round <= last_committed_round);
        }
    }
    assert(cleaned(state, last_committed_round).dag =~= Map::<Round, Map<PublicKey, Slot>>::empty());
}

/// Cleanup is idempotent and monotone: a second cleanup with a round that is
/// not after the first changes nothing, and two cleanups with ascending
/// rounds amount to the later one.
pub proof fn law_cleanup_is_monotone(state: StateView, first: Round, second: Round)
    ensures
        second <= first ==> cleaned(cleaned(state, first), second) == cleaned(state, first),
        first <= second ==> cleaned(cleaned(state, first), second) == cleaned(state, second),
{
    let once = cleaned(state, first);
    let twice = cleaned(once, second);
    if second <= first {
        assert(twice.dag =~= once.dag);
        assert(twice.steady =~= once.steady);
        assert(twice.fallback =~= once.fallback);
    }
    if first <= second {
        let last = cleaned(state, second);
        assert(twice.dag =~= last.dag);
        assert(twice.steady =~= last.steady);
        assert(twice.fallback =~= last.fallback);
    }
}

/// The leaders are functions of the committee, the round and the DAG: two
/// states that agree on these, and on the pin, have the same leaders,
/// whatever their authority sets hold.
pub proof fn law_leaders_depend_on_committee_round_and_dag(a: StateView, b: StateView, round: Round)
    requires
        a.committee == b.committee,
        a.dag == b.dag,
        a.pinned == b.pinned,
    ensures
        spec_steady_leader(a, round) == spec_steady_leader(b, round),
        spec_fallback_leader(a, round) == spec_fallback_leader(b, round),
{
}

/// Whatever the seed, the elected authority is a member of the committee.
pub proof fn law_elected_is_a_member(committee: Seq<PublicKey>, seed: int)
    requires
        committee.len() > 0,
    ensures
        committee.contains(elected(committee, seed)),
{
    let place = seed % (committee.len() as int);
    assert(0 <= place < committee.len());
    assert(committee[place] == elected(committee, seed));
}

/// Every authority of the committee is the steady-state leader of some
/// round: the one at place `i` leads round `2i - 1`. The seed of the last
/// round is `2^63`, so a place beyond that is never reached.
pub proof fn law_every_authority_leads_steady(committee: Seq<PublicKey>, i: int)
    requires
        0 <= i < committee.len(),
        i <= 0x8000_0000_0000_0000,
    ensures
        exists|round: Round| elected(committee, #[trigger] steady_seed(round, false)) == committee[i],
{
    let round: Round = if i == 0 { 0 } else { (2 * i - 1) as Round };
    assert(steady_seed(round, false) == i);
    lemma_small_mod(i as nat, committee.len());
}

/// Every authority of the committee is the fallback leader of some round:
/// the one at place `i` leads round `4i - 1`. The coin of the last round is
/// `2^62`, so a place beyond that is never reached.
pub proof fn law_every_authority_leads_fallback(committee: Seq<PublicKey>, i: int)
    requires
        0 <= i < committee.len(),
        i <= 0x4000_0000_0000_0000,
    ensures
        exists|round: Round| elected(committee, #[trigger] fallback_coin(round, false)) == committee[i],
{
    let round: Round = if i == 0 { 0 } else { (4 * i - 1) as Round };
    assert(fallback_coin(round, false) == i);
    lemma_small_mod(i as nat, committee.len());
}

/// The steady-state leaders are the committee: an authority leads some round
/// exactly when it is a member. This holds of every committee that a machine
/// can hold; one of more than `2^63 + 1` members has places that no seed
/// reaches.
pub proof fn law_steady_leaders_are_the_committee(committee: Seq<PublicKey>)
    requires
        0 < committee.len() <= 0x8000_0000_0000_0001,
    ensures
        forall|key: PublicKey|
            committee.contains(key) <==> exists|round: Round|
                elected(committee, #[trigger] steady_seed(round, false)) == key,
{
    assert forall|key: PublicKey| committee.contains(key) implies exists|round: Round|
        elected(committee, #[trigger] steady_seed(round, false)) == key by {
        let i = choose|i: int| 0 <= i < committee.len() && committee[i] == key;
        law_every_authority_leads_steady(committee, i);
    }
    assert forall|key: PublicKey|
        (exists|round: Round|
            elected(committee, #[trigger] steady_seed(round, false)) == key) implies committee.contains(
        key,
    ) by {
        let round = choose|round: Round| elected(committee, #[trigger] steady_seed(round, false)) == key;
        law_elected_is_a_member(committee, steady_seed(round, false));
    }
}

/// The fallback leaders are the committee, in the same way; here a committee
/// of more than `2^62 + 1` members has places that no coin reaches.
pub proof fn law_fallback_leaders_are_the_committee(committee: Seq<PublicKey>)
    requires
        0 < committee.len() <= 0x4000_0000_0000_0001,
    ensures
        forall|key: PublicKey|
            committee.contains(key) <==> exists|round: Round|
                elected(committee, #[trigger] fallback_coin(round, false)) == key,
{
    assert forall|key: PublicKey| committee.contains(key) implies exists|round: Round|
        elected(committee, #[trigger] fallback_coin(round, false)) == key by {
        let i = choose|i: int| 0 <= i < committee.len() && committee[i] == key;
        law_every_authority_leads_fallback(committee, i);
    }
    assert forall|key: PublicKey|
        (exists|round: Round|
            elected(committee, #[trigger] fallback_coin(round, false)) == key) implies committee.contains(
        key,
    ) by {
        let round = choose|round: Round|
            elected(committee, #[trigger] fallback_coin(round, false)) == key;
        law_elected_is_a_member(committee, fallback_coin(round, false));
    }
}

/// The seeds follow the rounds: the two rounds of a wave share the seed of
/// the steady-state election, which is the wave, and four rounds in a row
/// share the coin of the fallback election.
pub proof fn law_seeds_follow_rounds(k: int)
    requires
        1 <= k <= 0x3fff_ffff_ffff_ffff,
    ensures
        steady_seed((2 * k - 1) as Round, false) == k,
        steady_seed((2 * k) as Round, false) == k,
        fallback_coin((4 * k - 1) as Round, false) == k,
        fallback_coin((4 * k) as Round, false) == k,
        fallback_coin((4 * k + 1) as Round, false) == k,
        fallback_coin((4 * k + 2) as Round, false) == k,
{
}

/// The election cycles through the committee: the seed that follows a seed
/// elects the authority that follows in the ascending list, and the first
/// one after the last.
pub proof fn law_election_cycles(committee: Seq<PublicKey>, seed: int)
    requires
        committee.len() > 0,
        seed >= 0,
    ensures
        elected(committee, seed + 1) == committee[(seed % (committee.len() as int) + 1) % (
        committee.len() as int)],
{
    let n = committee.len() as int;
    if n > 1 {
        lemma_add_mod_noop(seed, 1, n);
        lemma_small_mod(1, n as nat);
    }
}

/// A pinned election elects the first authority of the committee at every
/// round.
pub proof fn law_pinned_election(state: StateView, round: Round)
    requires
        state.pinned,
        state.committee.len() > 0,
    ensures
        elected(state.committee, steady_seed(round, true)) == state.committee[0],
        elected(state.committee, fallback_coin(round, true)) == state.committee[0],
{
}

/// In a committee of one, that authority leads every round of either
/// election.
pub proof fn law_single_authority_always_leads(committee: Seq<PublicKey>, round: Round, pinned: bool)
    requires
        committee.len() == 1,
    ensures
        elected(committee, steady_seed(round, pinned)) == committee[0],
        elected(committee, fallback_coin(round, pinned)) == committee[0],
{
}

} // verus!
