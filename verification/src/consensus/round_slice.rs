//! One round of the virtual DAG: at most one certificate for each author.

use crate::consensus::certificate::{Certificate, CertificateView};
use crate::identity::{Digest, PublicKey};
use vstd::prelude::*;

verus! {

/// What a slot of the DAG holds, as a mathematical value: the digest of a
/// certificate, and the certificate.
pub type Slot = (Digest, CertificateView);

/// The mathematical value of a stored pair.
pub open spec fn slot_of(entry: (Digest, Certificate)) -> Slot {
    (entry.0, entry.1@)
}

/// The slot that a certificate fills.
pub open spec fn slot_for(certificate: CertificateView) -> Slot {
    (certificate.digest, certificate)
}

/// Some slot of the round holds a certificate with this digest.
pub open spec fn has_digest(round: Map<PublicKey, Slot>, digest: Digest) -> bool {
    exists|author: PublicKey| #[trigger] round.contains_key(author) && round[author].0 == digest
}

/// Every slot is filled by a certificate of the author that keys it, next to
/// that certificate's own digest.
pub open spec fn slots_match(round: Map<PublicKey, Slot>) -> bool {
    forall|author: PublicKey| #[trigger]
        round.contains_key(author) ==> round[author] == slot_for(round[author].1)
            && round[author].1.origin == author
}

/// The round that a list of certificates fills when each is put in its
/// author's slot in turn, a later one replacing an earlier one of the same
/// author.
pub open spec fn filled(certificates: Seq<CertificateView>) -> Map<PublicKey, Slot>
    decreases certificates.len(),
{
    if certificates.len() == 0 {
        Map::empty()
    } else {
        filled(certificates.drop_last()).insert(
            certificates.last().origin,
            slot_for(certificates.last()),
        )
    }
}

/// The mathematical values of a list of certificates.
pub open spec fn views(certificates: Seq<Certificate>) -> Seq<CertificateView> {
    certificates.map_values(|certificate: Certificate| certificate@)
}

/// The certificates of one round, by author.
#[derive(Debug)]
pub struct RoundSlice {
    entries: Vec<(Digest, Certificate)>,
}

/// Some entry is of this author.
spec fn holds(entries: Seq<(Digest, Certificate)>, author: PublicKey) -> bool {
    exists|i: int| 0 <= i < entries.len() && (#[trigger] entries[i]).1.origin == author
}

/// The place of the entry of this author.
spec fn place_of(entries: Seq<(Digest, Certificate)>, author: PublicKey) -> int {
    choose|i: int| 0 <= i < entries.len() && (#[trigger] entries[i]).1.origin == author
}

/// No two entries are of one author, and each stands next to its digest.
spec fn entries_wf(entries: Seq<(Digest, Certificate)>) -> bool {
    &&& forall|i: int, j: int|
        0 <= i < entries.len() && 0 <= j < entries.len() && i != j ==> (#[trigger] entries[i]).1.origin
            != (#[trigger] entries[j]).1.origin
    &&& forall|i: int| 0 <= i < entries.len() ==> (#[trigger] entries[i]).0 == entries[i].1.digest
}

/// The map that a list of entries stands for.
spec fn entries_map(entries: Seq<(Digest, Certificate)>) -> Map<PublicKey, Slot> {
    Map::new(
        |author: PublicKey| holds(entries, author),
        |author: PublicKey| slot_of(entries[place_of(entries, author)]),
    )
}

/// In a well-formed list, an entry is found under its author.
proof fn lemma_entry_found(entries: Seq<(Digest, Certificate)>, i: int)
    requires
        entries_wf(entries),
        0 <= i < entries.len(),
    ensures
        holds(entries, entries[i].1.origin),
        place_of(entries, entries[i].1.origin) == i,
        entries_map(entries).contains_key(entries[i].1.origin),
        entries_map(entries)[entries[i].1.origin] == slot_of(entries[i]),
{
    let author = entries[i].1.origin;
    assert(holds(entries, author));
    let p = place_of(entries, author);
    assert(0 <= p < entries.len() && entries[p].1.origin == author);
}

impl View for RoundSlice {
    type V = Map<PublicKey, Slot>;

    closed spec fn view(&self) -> Map<PublicKey, Slot> {
        entries_map(self.entries@)
    }
}

impl RoundSlice {
    /// No author has two certificates, and each certificate stands next to
    /// its digest.
    pub closed spec fn wf(&self) -> bool {
        entries_wf(self.entries@)
    }

    /// In a well-formed round every slot matches its key, and the round is
    /// finite.
    pub proof fn lemma_wf(&self)
        requires
            self.wf(),
        ensures
            slots_match(self@),
            self@.dom().finite(),
    {
        let entries = self.entries@;
        assert forall|author: PublicKey| #[trigger] self@.contains_key(author) implies self@[author]
            == slot_for(self@[author].1) && self@[author].1.origin == author by {
            let p = place_of(entries, author);
            assert(0 <= p < entries.len() && entries[p].1.origin == author);
        }
        lemma_dom_size(entries);
    }

    /// The empty round.
    pub fn new() -> (slice: RoundSlice)
        ensures
            slice.wf(),
            slice@ == Map::<PublicKey, Slot>::empty(),
    {
        let slice = RoundSlice { entries: Vec::new() };
        assert(slice@ =~= Map::<PublicKey, Slot>::empty());
        slice
    }

    /// The round that the certificates fill when each is put in its author's
    /// slot in turn.
    pub fn from_certificates(certificates: Vec<Certificate>) -> (slice: RoundSlice)
        ensures
            slice.wf(),
            slice@ == filled(views(certificates@)),
    {
        let ghost all = certificates@;
        let mut slice = RoundSlice::new();
        for certificate in it: certificates
            invariant
                it.seq() == all,
                slice.wf(),
                slice@ == filled(views(all.take(it.index()))),
        {
            proof {
                let done = views(all.take(it.index()));
                let more = views(all.take(it.index() + 1));
                assert(more.drop_last() == done);
                assert(more.last() == certificate@);
            }
            slice.insert(certificate);
        }
        assert(all.take(all.len() as int) == all);
        slice
    }

    /// The number of certificates.
    pub fn len(&self) -> (count: usize)
        requires
            self.wf(),
        ensures
            count == self@.dom().len(),
    {
        proof {
            lemma_dom_size(self.entries@);
        }
        self.entries.len()
    }

    /// The place of the author's entry, if there is one.
    fn find(&self, author: &PublicKey) -> (place: Option<usize>)
        requires
            self.wf(),
        ensures
            match place {
                Some(i) => i < self.entries@.len() && self.entries@[i as int].1.origin == *author,
                None => !holds(self.entries@, *author),
            },
    {
        let mut i: usize = 0;
        while i < self.entries.len()
            invariant
                i <= self.entries.len(),
                forall|j: int| 0 <= j < i ==> (#[trigger] self.entries@[j]).1.origin != *author,
            decreases self.entries.len() - i,
        {
            if self.entries[i].1.origin == *author {
                return Some(i);
            }
            i += 1;
        }
        None
    }

    /// The certificate of `author` in this round, with its digest.
    pub fn get(&self, author: &PublicKey) -> (slot: Option<&(Digest, Certificate)>)
        requires
            self.wf(),
        ensures
            match slot {
                Some(entry) => self@.contains_key(*author) && self@[*author] == slot_of(*entry),
                None => !self@.contains_key(*author),
            },
    {
        match self.find(author) {
            Some(i) => {
                proof {
                    lemma_entry_found(self.entries@, i as int);
                }
                Some(&self.entries[i])
            },
            None => None,
        }
    }

    /// Tells whether `author` has a certificate in this round.
    pub fn contains_key(&self, author: &PublicKey) -> (found: bool)
        requires
            self.wf(),
        ensures
            found == self@.contains_key(*author),
    {
        self.find(author).is_some()
    }

    /// Tells whether some certificate of this round has the given digest.
    pub fn contains_digest(&self, digest: &Digest) -> (found: bool)
        requires
            self.wf(),
        ensures
            found == has_digest(self@, *digest),
    {
        let mut i: usize = 0;
        while i < self.entries.len()
            invariant
                i <= self.entries.len(),
                self.wf(),
                forall|j: int| 0 <= j < i ==> (#[trigger] self.entries@[j]).0 != *digest,
            decreases self.entries.len() - i,
        {
            if self.entries[i].0 == *digest {
                proof {
                    lemma_entry_found(self.entries@, i as int);
                }
                return true;
            }
            i += 1;
        }
        proof {
            if has_digest(self@, *digest) {
                let author = choose|author: PublicKey| #[trigger]
                    self@.contains_key(author) && self@[author].0 == *digest;
                let p = place_of(self.entries@, author);
                assert(0 <= p < self.entries@.len() && self.entries@[p].1.origin == author);
            }
        }
        false
    }

    /// Puts a certificate in its author's slot, next to its digest. A
    /// certificate that the author had there before is replaced.
    pub fn insert(&mut self, certificate: Certificate)
        requires
            old(self).wf(),
        ensures
            final(self).wf(),
            final(self)@ == old(self)@.insert(certificate@.origin, slot_for(certificate@)),
    {
        let ghost before = self.entries@;
        let ghost author = certificate.origin;
        let ghost slot = slot_for(certificate@);
        let entry = (certificate.digest, certificate);
        match self.find(&entry.1.origin) {
            Some(i) => {
                self.entries[i] = entry;
                proof {
                    let after = self.entries@;
                    assert(after == before.update(i as int, entry));
                    assert(entries_wf(after)) by {
                        assert forall|a: int, b: int|
                            0 <= a < after.len() && 0 <= b < after.len() && a != b implies (
                        #[trigger] after[a]).1.origin != (#[trigger] after[b]).1.origin by {
                            assert(before[a].1.origin != before[b].1.origin);
                        }
                    }
                    assert forall|k: PublicKey|
                        entries_map(after).contains_key(k) <==> entries_map(before).insert(
                            author,
                            slot,
                        ).contains_key(k) by {
                        if holds(after, k) {
                            let p = place_of(after, k);
                            assert(0 <= p < after.len() && after[p].1.origin == k);
                            if p != i {
                                assert(before[p].1.origin == k);
                            }
                        }
                        if holds(before, k) {
                            let p = place_of(before, k);
                            assert(0 <= p < before.len() && before[p].1.origin == k);
                            assert(after[p].1.origin == k);
                        }
                        if k == author {
                            assert(after[i as int].1.origin == k);
                        }
                    }
                    assert forall|k: PublicKey| entries_map(after).contains_key(k) implies entries_map(
                        after,
                    )[k] == entries_map(before).insert(author, slot)[k] by {
                        let p = place_of(after, k);
                        assert(0 <= p < after.len() && after[p].1.origin == k);
                        lemma_entry_found(after, p);
                        if k != author {
                            assert(before[p].1.origin == k);
                            lemma_entry_found(before, p);
                        }
                    }
                    assert(entries_map(after) =~= entries_map(before).insert(author, slot));
                }
            },
            None => {
                self.entries.push(entry);
                proof {
                    let after = self.entries@;
                    let last = before.len() as int;
                    assert(after == before.push(entry));
                    assert(entries_wf(after)) by {
                        assert forall|a: int, b: int|
                            0 <= a < after.len() && 0 <= b < after.len() && a != b implies (
                        #[trigger] after[a]).1.origin != (#[trigger] after[b]).1.origin by {
                            if a < last && b < last {
                                assert(before[a].1.origin != before[b].1.origin);
                            } else if a < last {
                                assert(before[a].1.origin != author);
                            } else {
                                assert(before[b].1.origin != author);
                            }
                        }
                    }
                    assert forall|k: PublicKey|
                        entries_map(after).contains_key(k) <==> entries_map(before).insert(
                            author,
                            slot,
                        ).contains_key(k) by {
                        if holds(after, k) {
                            let p = place_of(after, k);
                            assert(0 <= p < after.len() && after[p].1.origin == k);
                            if p != last {
                                assert(before[p].1.origin == k);
                            }
                        }
                        if holds(before, k) {
                            let p = place_of(before, k);
                            assert(0 <= p < before.len() && before[p].1.origin == k);
                            assert(after[p].1.origin == k);
                        }
                        if k == author {
                            assert(after[last].1.origin == k);
                        }
                    }
                    assert forall|k: PublicKey| entries_map(after).contains_key(k) implies entries_map(
                        after,
                    )[k] == entries_map(before).insert(author, slot)[k] by {
                        let p = place_of(after, k);
                        assert(0 <= p < after.len() && after[p].1.origin == k);
                        lemma_entry_found(after, p);
                        if k != author {
                            assert(before[p].1.origin == k);
                            lemma_entry_found(before, p);
                        }
                    }
                    assert(entries_map(after) =~= entries_map(before).insert(author, slot));
                }
            },
        }
    }
}

/// A well-formed list stands for a finite map with one key for each entry.
proof fn lemma_dom_size(entries: Seq<(Digest, Certificate)>)
    requires
        entries_wf(entries),
    ensures
        entries_map(entries).dom().finite(),
        entries_map(entries).dom().len() == entries.len(),
    decreases entries.len(),
{
    if entries.len() == 0 {
        assert(entries_map(entries).dom() =~= Set::<PublicKey>::empty());
    } else {
        let head = entries.drop_last();
        let last = entries.last();
        assert(entries_wf(head)) by {
            assert forall|i: int, j: int|
                0 <= i < head.len() && 0 <= j < head.len() && i != j implies (#[trigger] head[i]).1.origin
                != (#[trigger] head[j]).1.origin by {
                assert(entries[i].1.origin != entries[j].1.origin);
            }
            assert forall|i: int| 0 <= i < head.len() implies (#[trigger] head[i]).0
                == head[i].1.digest by {
                assert(entries[i].0 == entries[i].1.digest);
            }
        }
        lemma_dom_size(head);
        assert(!holds(head, last.1.origin)) by {
            if holds(head, last.1.origin) {
                let p = place_of(head, last.1.origin);
                assert(0 <= p < head.len() && head[p].1.origin == last.1.origin);
                assert(entries[p].1.origin != entries[entries.len() - 1].1.origin);
            }
        }
        assert forall|k: PublicKey|
            entries_map(entries).dom().contains(k) <==> entries_map(head).dom().insert(
                last.1.origin,
            ).contains(k) by {
            if holds(entries, k) {
                let p = place_of(entries, k);
                assert(0 <= p < entries.len() && entries[p].1.origin == k);
                if p < head.len() {
                    assert(head[p].1.origin == k);
                }
            }
            if holds(head, k) {
                let p = place_of(head, k);
                assert(0 <= p < head.len() && head[p].1.origin == k);
                assert(entries[p].1.origin == k);
            }
            if k == last.1.origin {
                assert(entries[entries.len() - 1].1.origin == k);
            }
        }
        assert(entries_map(entries).dom() =~= entries_map(head).dom().insert(last.1.origin));
    }
}

} // verus!
