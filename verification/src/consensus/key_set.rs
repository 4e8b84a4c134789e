//! Sets of authority identifiers, kept as a list in ascending byte order.

use crate::identity::{lemma_before_asymmetric, lemma_before_transitive, PublicKey, Rank};
use vstd::prelude::*;

verus! {

/// The list is in strictly ascending byte order.
pub open spec fn ascending(keys: Seq<PublicKey>) -> bool {
    forall|i: int, j: int| 0 <= i < j < keys.len() ==> (#[trigger] keys[i]).before(#[trigger] keys[j])
}

/// A list in strictly ascending order holds nothing twice.
pub proof fn lemma_ascending_distinct(keys: Seq<PublicKey>)
    requires
        ascending(keys),
    ensures
        keys.no_duplicates(),
{
    assert forall|i: int, j: int| 0 <= i < keys.len() && 0 <= j < keys.len() && i != j implies keys[i]
        != keys[j] by {
        if i < j {
            lemma_before_asymmetric(keys[i]@, keys[j]@);
        } else {
            lemma_before_asymmetric(keys[j]@, keys[i]@);
        }
    }
}

/// There is one ascending list of the members of a set: two ascending lists
/// with the same members are the same list.
pub proof fn law_ascending_list_is_unique(a: Seq<PublicKey>, b: Seq<PublicKey>)
    requires
        ascending(a),
        ascending(b),
        a.to_set() == b.to_set(),
    ensures
        a == b,
    decreases a.len(),
{
    lemma_ascending_distinct(a);
    lemma_ascending_distinct(b);
    a.unique_seq_to_set();
    b.unique_seq_to_set();
    if a.len() > 0 {
        let last = a.len() - 1;
        // The last of each list is in the other; neither can come after the
        // other, so they are the same key.
        assert(a.to_set().contains(a[last]));
        assert(b.contains(a[last]));
        let j = choose|j: int| 0 <= j < b.len() && b[j] == a[last];
        assert(b.to_set().contains(b[last]));
        assert(a.contains(b[last]));
        let i = choose|i: int| 0 <= i < a.len() && a[i] == b[last];
        if j < last {
            assert(b[j].before(b[last]));
            if i < last {
                assert(a[i].before(a[last]));
                lemma_before_asymmetric(a[i]@, a[last]@);
            } else {
                lemma_before_asymmetric(b[j]@, b[last]@);
            }
        }
        assert(a[last] == b[last]);
        let head_a = a.drop_last();
        let head_b = b.drop_last();
        assert forall|k: PublicKey| head_a.to_set().contains(k) <==> head_b.to_set().contains(k) by {
            if head_a.contains(k) {
                let p = choose|p: int| 0 <= p < head_a.len() && head_a[p] == k;
                assert(a[p] == k);
                assert(a.to_set().contains(k));
                assert(b.contains(k));
                let q = choose|q: int| 0 <= q < b.len() && b[q] == k;
                assert(head_b[q] == k);
            }
            if head_b.contains(k) {
                let p = choose|p: int| 0 <= p < head_b.len() && head_b[p] == k;
                assert(b[p] == k);
                assert(b.to_set().contains(k));
                assert(a.contains(k));
                let q = choose|q: int| 0 <= q < a.len() && a[q] == k;
                assert(head_a[q] == k);
            }
        }
        assert(head_a.to_set() =~= head_b.to_set());
        law_ascending_list_is_unique(head_a, head_b);
        assert(a =~= head_a.push(a[last]));
        assert(b =~= head_b.push(b[last]));
    } else {
        assert(a =~= b);
    }
}

/// A set of authority identifiers.
#[derive(Debug)]
pub struct KeySet {
    keys: Vec<PublicKey>,
}

impl View for KeySet {
    type V = Seq<PublicKey>;

    /// The members, in ascending byte order.
    closed spec fn view(&self) -> Seq<PublicKey> {
        self.keys@
    }
}

impl Clone for KeySet {
    fn clone(&self) -> (copy: KeySet)
        ensures
            copy@ == self@,
    {
        let mut keys: Vec<PublicKey> = Vec::new();
        let mut i: usize = 0;
        while i < self.keys.len()
            invariant
                i <= self.keys.len(),
                keys@ == self.keys@.take(i as int),
            decreases self.keys.len() - i,
        {
            keys.push(self.keys[i]);
            i += 1;
        }
        assert(self.keys@.take(i as int) == self.keys@);
        KeySet { keys }
    }
}

impl KeySet {
    /// The list of members is in strictly ascending order.
    pub open spec fn wf(&self) -> bool {
        ascending(self@)
    }

    /// The members, as a set.
    pub open spec fn members(&self) -> Set<PublicKey> {
        self@.to_set()
    }

    /// The empty set.
    pub fn new() -> (set: KeySet)
        ensures
            set.wf(),
            set@ == Seq::<PublicKey>::empty(),
    {
        KeySet { keys: Vec::new() }
    }

    /// The number of members.
    pub fn len(&self) -> (count: usize)
        ensures
            count == self@.len(),
    {
        self.keys.len()
    }

    /// The member at place `i` of the ascending list.
    pub fn get(&self, i: usize) -> (key: PublicKey)
        requires
            i < self@.len(),
        ensures
            key == self@[i as int],
    {
        self.keys[i]
    }

    /// The place at which `key` stands in the ascending list, or would stand
    /// if it were a member, and whether it is a member.
    fn locate(&self, key: &PublicKey) -> (place: (usize, bool))
        requires
            self.wf(),
        ensures
            place.0 <= self@.len(),
            forall|j: int| 0 <= j < place.0 ==> (#[trigger] self@[j]).before(*key),
            place.1 ==> place.0 < self@.len() && self@[place.0 as int] == *key,
            !place.1 ==> forall|j: int| place.0 <= j < self@.len() ==> key.before(#[trigger] self@[j]),
    {
        let mut i: usize = 0;
        while i < self.keys.len()
            invariant
                i <= self.keys.len(),
                self.wf(),
                forall|j: int| 0 <= j < i ==> (#[trigger] self@[j]).before(*key),
            decreases self.keys.len() - i,
        {
            match self.keys[i].rank(key) {
                Rank::Before => {},
                Rank::Same => {
                    return (i, true);
                },
                Rank::After => {
                    proof {
                        assert forall|j: int| i <= j < self@.len() implies key.before(
                            #[trigger] self@[j],
                        ) by {
                            if i < j {
                                lemma_before_transitive(key@, self@[i as int]@, self@[j]@);
                            }
                        }
                    }
                    return (i, false);
                },
            }
            i += 1;
        }
        (i, false)
    }

    /// Tells whether `key` is a member.
    pub fn contains(&self, key: &PublicKey) -> (found: bool)
        requires
            self.wf(),
        ensures
            found == self.members().contains(*key),
    {
        let place = self.locate(key);
        proof {
            if !place.1 && self@.contains(*key) {
                let j = choose|j: int| 0 <= j < self@.len() && self@[j] == *key;
                if j < place.0 {
                    lemma_before_asymmetric(self@[j]@, key@);
                } else {
                    lemma_before_asymmetric(key@, self@[j]@);
                }
            }
        }
        place.1
    }

    /// Adds `key` to the set and tells whether it was new.
    pub fn insert(&mut self, key: PublicKey) -> (fresh: bool)
        requires
            old(self).wf(),
        ensures
            final(self).wf(),
            final(self).members() == old(self).members().insert(key),
            fresh == !old(self).members().contains(key),
            fresh ==> final(self)@.len() == old(self)@.len() + 1,
            !fresh ==> final(self)@ == old(self)@,
    {
        let place = self.locate(&key);
        if place.1 {
            proof {
                assert(self@.contains(key));
                assert(self.members().insert(key) =~= self.members());
            }
            return false;
        }
        proof {
            if self@.contains(key) {
                let j = choose|j: int| 0 <= j < self@.len() && self@[j] == key;
                if j < place.0 {
                    lemma_before_asymmetric(self@[j]@, key@);
                } else {
                    lemma_before_asymmetric(key@, self@[j]@);
                }
            }
        }
        let ghost before = self@;
        self.keys.insert(place.0, key);
        proof {
            let after = self@;
            let at = place.0 as int;
            assert(after == before.insert(at, key));
            assert forall|i: int, j: int| 0 <= i < j < after.len() implies (#[trigger] after[i]).before(
                #[trigger] after[j],
            ) by {
                let bi = if i < at { i } else { i - 1 };
                let bj = if j < at { j } else { j - 1 };
                if i != at && j != at {
                    assert(before[bi].before(before[bj]));
                } else if i == at {
                    assert(key.before(before[bj]));
                } else {
                    assert(before[bi].before(key));
                }
            }
            assert forall|k: PublicKey| after.to_set().contains(k) <==> before.to_set().insert(
                key,
            ).contains(k) by {
                if after.contains(k) {
                    let i = choose|i: int| 0 <= i < after.len() && after[i] == k;
                    if i != at {
                        let bi = if i < at { i } else { i - 1 };
                        assert(before[bi] == k);
                    }
                }
                if before.contains(k) {
                    let i = choose|i: int| 0 <= i < before.len() && before[i] == k;
                    let ai = if i < at { i } else { i + 1 };
                    assert(after[ai] == k);
                }
                if k == key {
                    assert(after[at] == k);
                }
            }
            assert(after.to_set() =~= before.to_set().insert(key));
        }
        true
    }

    /// The set of the keys in a list. A key that occurs twice counts once.
    pub fn from_keys(keys: &Vec<PublicKey>) -> (set: KeySet)
        ensures
            set.wf(),
            set.members() == keys@.to_set(),
            set@.len() <= keys@.len(),
            keys@.len() > 0 ==> set@.len() > 0,
            keys@.no_duplicates() ==> set@.len() == keys@.len(),
    {
        let mut set = KeySet::new();
        let mut i: usize = 0;
        assert(set.members() =~= keys@.take(0).to_set());
        while i < keys.len()
            invariant
                i <= keys.len(),
                set.wf(),
                set.members() == keys@.take(i as int).to_set(),
                set@.len() <= i,
                i > 0 ==> set@.len() > 0,
                keys@.no_duplicates() ==> set@.len() == i,
            decreases keys.len() - i,
        {
            proof {
                if keys@.no_duplicates() && keys@.take(i as int).contains(keys@[i as int]) {
                    let head = keys@.take(i as int);
                    let j = choose|j: int| 0 <= j < head.len() && head[j] == keys@[i as int];
                    assert(keys@[j] == keys@[i as int]);
                }
            }
            set.insert(keys[i]);
            proof {
                let head = keys@.take(i as int);
                let more = keys@.take(i + 1);
                assert(more == head.push(keys@[i as int]));
                assert forall|k: PublicKey| more.to_set().contains(k) <==> head.to_set().insert(
                    keys@[i as int],
                ).contains(k) by {
                    if more.contains(k) {
                        let j = choose|j: int| 0 <= j < more.len() && more[j] == k;
                        if j < i {
                            assert(head[j] == k);
                        }
                    }
                    if head.contains(k) {
                        let j = choose|j: int| 0 <= j < head.len() && head[j] == k;
                        assert(more[j] == k);
                    }
                    if k == keys@[i as int] {
                        assert(more[i as int] == k);
                    }
                }
                assert(more.to_set() =~= head.to_set().insert(keys@[i as int]));
            }
            i += 1;
        }
        assert(keys@.take(i as int) == keys@);
        set
    }
}

} // verus!
