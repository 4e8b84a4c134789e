//! The committee: the authorities of the epoch, fixed for the lifetime of a
//! consensus state.

use crate::consensus::key_set::KeySet;
use crate::identity::PublicKey;
use vstd::prelude::*;

verus! {

/// The authorities of the epoch.
#[derive(Debug)]
pub struct Committee {
    authorities: KeySet,
}

impl View for Committee {
    type V = Seq<PublicKey>;

    /// The identifiers of the authorities, in ascending byte order.
    closed spec fn view(&self) -> Seq<PublicKey> {
        self.authorities@
    }
}

impl Committee {
    /// The list of authorities is in strictly ascending order.
    pub open spec fn wf(&self) -> bool {
        crate::consensus::key_set::ascending(self@)
    }

    /// The committee of the authorities in `keys`. An identifier that occurs
    /// twice counts once.
    pub fn new(keys: Vec<PublicKey>) -> (committee: Committee)
        ensures
            committee.wf(),
            committee@.to_set() == keys@.to_set(),
            committee@.len() <= keys@.len(),
            keys@.len() > 0 ==> committee@.len() > 0,
            keys@.no_duplicates() ==> committee@.len() == keys@.len(),
    {
        Committee { authorities: KeySet::from_keys(&keys) }
    }

    /// The number of authorities.
    pub fn size(&self) -> (count: usize)
        ensures
            count == self@.len(),
    {
        self.authorities.len()
    }

    /// The authority at place `i` of the ascending list.
    pub fn authority(&self, i: usize) -> (key: PublicKey)
        requires
            i < self@.len(),
        ensures
            key == self@[i as int],
    {
        self.authorities.get(i)
    }

    /// Tells whether `key` identifies an authority of the committee.
    pub fn contains(&self, key: &PublicKey) -> (found: bool)
        requires
            self.wf(),
        ensures
            found == self@.contains(*key),
    {
        self.authorities.contains(key)
    }

    /// The authorities, as a set of identifiers.
    pub fn authorities(&self) -> (set: &KeySet)
        ensures
            set@ == self@,
    {
        &self.authorities
    }
}

} // verus!
