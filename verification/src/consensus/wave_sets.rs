//! The authorities of a regime, wave by wave.

use crate::consensus::key_set::KeySet;
use crate::consensus::round_map::{kept_after, retain_after};
use crate::identity::PublicKey;
use crate::rounds::Round;
use std::collections::HashMap;
use vstd::prelude::*;

verus! {

/// The mathematical value of the tracker: for each stored wave, its members.
pub type WaveSetsView = Map<Round, Set<PublicKey>>;

/// The members of a wave, none where the wave is not stored.
pub open spec fn wave_or_empty(sets: WaveSetsView, wave: Round) -> Set<PublicKey> {
    if sets.contains_key(wave) {
        sets[wave]
    } else {
        Set::empty()
    }
}

/// For each wave, the set of the authorities that are in one regime.
#[derive(Debug)]
pub struct WaveSets {
    waves: HashMap<Round, KeySet>,
}

impl View for WaveSets {
    type V = WaveSetsView;

    closed spec fn view(&self) -> WaveSetsView {
        Map::new(
            |wave: Round| self.waves@.contains_key(wave),
            |wave: Round| self.waves@[wave].members(),
        )
    }
}

impl WaveSets {
    /// Every stored set is well-formed.
    pub closed spec fn wf(&self) -> bool {
        forall|wave: Round| #[trigger] self.waves@.contains_key(wave) ==> self.waves@[wave].wf()
    }

    /// The tracker without any wave.
    pub fn new() -> (sets: WaveSets)
        ensures
            sets.wf(),
            sets@ == Map::<Round, Set<PublicKey>>::empty(),
    {
        let sets = WaveSets { waves: HashMap::new() };
        assert(sets@ =~= Map::<Round, Set<PublicKey>>::empty());
        sets
    }

    /// The number of stored waves.
    pub fn len(&self) -> (count: usize)
        ensures
            count == self@.dom().len(),
    {
        assert(self@.dom() =~= self.waves@.dom());
        self.waves.len()
    }

    /// Tells whether the wave is stored.
    pub fn contains_wave(&self, wave: Round) -> (found: bool)
        ensures
            found == self@.contains_key(wave),
    {
        self.waves.contains_key(&wave)
    }

    /// The members of a wave, if the wave is stored.
    pub fn get(&self, wave: Round) -> (set: Option<&KeySet>)
        requires
            self.wf(),
        ensures
            match set {
                Some(set) => self@.contains_key(wave) && set.members() == self@[wave] && set.wf(),
                None => !self@.contains_key(wave),
            },
    {
        self.waves.get(&wave)
    }

    /// Tells whether `author` is a member of the wave. No authority is a
    /// member of a wave that is not stored.
    pub fn contains(&self, wave: Round, author: &PublicKey) -> (found: bool)
        requires
            self.wf(),
        ensures
            found == wave_or_empty(self@, wave).contains(*author),
    {
        match self.waves.get(&wave) {
            Some(set) => set.contains(author),
            None => false,
        }
    }

    /// Makes `set` the members of `wave`, in place of what was stored there.
    pub fn put(&mut self, wave: Round, set: KeySet)
        requires
            old(self).wf(),
            set.wf(),
        ensures
            final(self).wf(),
            final(self)@ == old(self)@.insert(wave, set.members()),
    {
        self.waves.insert(wave, set);
        assert(self@ =~= old(self)@.insert(wave, set.members()));
    }

    /// Adds `author` to the members of `wave` and tells whether it was new
    /// there. The wave is created where it is missing.
    pub fn insert(&mut self, wave: Round, author: PublicKey) -> (fresh: bool)
        requires
            old(self).wf(),
        ensures
            final(self).wf(),
            final(self)@ == old(self)@.insert(wave, wave_or_empty(old(self)@, wave).insert(author)),
            fresh == !wave_or_empty(old(self)@, wave).contains(author),
    {
        let mut set = match self.waves.remove(&wave) {
            Some(set) => set,
            None => KeySet::new(),
        };
        assert(set.members() =~= wave_or_empty(old(self)@, wave));
        let fresh = set.insert(author);
        self.waves.insert(wave, set);
        assert(self@ =~= old(self)@.insert(wave, wave_or_empty(old(self)@, wave).insert(author)));
        fresh
    }

    /// Drops every wave that is not after `wave`.
    pub fn retain_after(&mut self, wave: Round)
        requires
            old(self).wf(),
        ensures
            final(self).wf(),
            final(self)@ == kept_after(old(self)@, wave),
    {
        retain_after(&mut self.waves, wave);
        assert(self@ =~= kept_after(old(self)@, wave));
    }
}

} // verus!
