//! Authority identifiers and certificate digests: fixed-width byte strings,
//! compared and ordered byte by byte.

use vstd::prelude::*;
use vstd::std_specs::cmp::PartialEqSpecImpl;

verus! {

/// How one identifier stands to another in byte order.
#[derive(Clone, Copy, Debug, PartialEq, Eq, Structural)]
pub enum Rank {
    Before,
    Same,
    After,
}

/// `i` is the first place at which `a` and `b` differ.
pub open spec fn differs_first_at(a: Seq<u8>, b: Seq<u8>, i: int) -> bool {
    &&& 0 <= i < a.len()
    &&& i < b.len()
    &&& a[i] != b[i]
    &&& forall|j: int| 0 <= j < i ==> a[j] == b[j]
}

/// `a` comes before `b` in byte order: at the first place where they differ,
/// `a` holds the smaller byte.
pub open spec fn bytes_before(a: Seq<u8>, b: Seq<u8>) -> bool {
    exists|i: int| #[trigger] differs_first_at(a, b, i) && a[i] < b[i]
}

/// Two arrays with the same bytes are the same array.
pub proof fn lemma_same_bytes(a: [u8; 32], b: [u8; 32])
    ensures
        (a@ == b@) == (a == b),
{
    if a@ == b@ {
        assert forall|i: int| 0 <= i < 32 implies a[i] == b[i] by {
            assert(a@[i] == b@[i]);
        }
        assert(a =~= b);
    }
}

/// Byte order never puts a string before itself.
pub proof fn lemma_before_irreflexive(a: Seq<u8>)
    ensures
        !bytes_before(a, a),
{
}

/// Byte order is transitive.
pub proof fn lemma_before_transitive(a: Seq<u8>, b: Seq<u8>, c: Seq<u8>)
    requires
        bytes_before(a, b),
        bytes_before(b, c),
    ensures
        bytes_before(a, c),
{
    let i = choose|i: int| #[trigger] differs_first_at(a, b, i) && a[i] < b[i];
    let j = choose|j: int| #[trigger] differs_first_at(b, c, j) && b[j] < c[j];
    let k = if i <= j { i } else { j };
    assert(differs_first_at(a, c, k));
}

/// Of two strings of one length, byte order puts at most one before the other.
pub proof fn lemma_before_asymmetric(a: Seq<u8>, b: Seq<u8>)
    requires
        bytes_before(a, b),
    ensures
        !bytes_before(b, a),
        a != b,
{
    let i = choose|i: int| #[trigger] differs_first_at(a, b, i) && a[i] < b[i];
    if bytes_before(b, a) {
        let j = choose|j: int| #[trigger] differs_first_at(b, a, j) && b[j] < a[j];
        assert(i == j);
    }
}

/// Two strings of one length that agree on their first `n` bytes and are not
/// the same differ first at some place from `n` on.
proof fn lemma_first_difference(a: Seq<u8>, b: Seq<u8>, n: int)
    requires
        a.len() == b.len(),
        0 <= n <= a.len(),
        a != b,
        forall|j: int| 0 <= j < n ==> a[j] == b[j],
    ensures
        exists|i: int| differs_first_at(a, b, i),
    decreases a.len() - n,
{
    if n == a.len() {
        assert(a =~= b);
    } else if a[n] != b[n] {
        assert(differs_first_at(a, b, n));
    } else {
        lemma_first_difference(a, b, n + 1);
    }
}

/// Byte order is total on strings of one length: of two that differ, one
/// comes before the other.
pub proof fn law_byte_order_is_total(a: Seq<u8>, b: Seq<u8>)
    requires
        a.len() == b.len(),
    ensures
        a == b || bytes_before(a, b) || bytes_before(b, a),
{
    if a != b {
        lemma_first_difference(a, b, 0);
        let i = choose|i: int| differs_first_at(a, b, i);
        if a[i] > b[i] {
            assert(differs_first_at(b, a, i));
        }
    }
}

/// Tells whether two arrays hold the same bytes.
pub fn same_bytes(a: &[u8; 32], b: &[u8; 32]) -> (same: bool)
    ensures
        same == (a@ == b@),
        same == (*a == *b),
{
    proof {
        lemma_same_bytes(*a, *b);
    }
    let mut i: usize = 0;
    while i < 32
        invariant
            i <= 32,
            forall|j: int| 0 <= j < i ==> a@[j] == b@[j],
        decreases 32 - i,
    {
        if a[i] != b[i] {
            return false;
        }
        i += 1;
    }
    assert(a@ =~= b@);
    true
}

/// Ranks `a` against `b` in byte order.
pub fn rank_bytes(a: &[u8; 32], b: &[u8; 32]) -> (rank: Rank)
    ensures
        rank == Rank::Before <==> bytes_before(a@, b@),
        rank == Rank::Same <==> a@ == b@,
        rank == Rank::After <==> bytes_before(b@, a@),
{
    let mut i: usize = 0;
    while i < 32
        invariant
            i <= 32,
            forall|j: int| 0 <= j < i ==> a@[j] == b@[j],
        decreases 32 - i,
    {
        if a[i] < b[i] {
            proof {
                assert(differs_first_at(a@, b@, i as int));
                lemma_before_asymmetric(a@, b@);
            }
            return Rank::Before;
        }
        if a[i] > b[i] {
            proof {
                assert(differs_first_at(b@, a@, i as int));
                lemma_before_asymmetric(b@, a@);
            }
            return Rank::After;
        }
        i += 1;
    }
    proof {
        assert(a@ =~= b@);
        lemma_before_irreflexive(a@);
    }
    Rank::Same
}

/// The public identifier of an authority. Identifiers are ordered by their
/// bytes, the first byte weighing most.
#[derive(Clone, Copy, Debug, Eq, PartialOrd, Ord, Hash)]
pub struct PublicKey {
    pub bytes: [u8; 32],
}

impl PartialEq for PublicKey {
    fn eq(&self, other: &Self) -> (same: bool) {
        same_bytes(&self.bytes, &other.bytes)
    }
}

impl PartialEqSpecImpl for PublicKey {
    open spec fn obeys_eq_spec() -> bool {
        true
    }

    open spec fn eq_spec(&self, other: &Self) -> bool {
        *self == *other
    }
}

impl View for PublicKey {
    type V = Seq<u8>;

    open spec fn view(&self) -> Seq<u8> {
        self.bytes@
    }
}

impl PublicKey {
    /// `self` comes before `other` in byte order.
    pub open spec fn before(self, other: PublicKey) -> bool {
        bytes_before(self@, other@)
    }

    /// Ranks this identifier against another.
    pub fn rank(&self, other: &PublicKey) -> (rank: Rank)
        ensures
            rank == Rank::Before <==> self.before(*other),
            rank == Rank::Same <==> *self == *other,
            rank == Rank::After <==> other.before(*self),
    {
        proof {
            lemma_same_bytes(self.bytes, other.bytes);
        }
        rank_bytes(&self.bytes, &other.bytes)
    }
}

/// The content hash of a certificate.
#[derive(Clone, Copy, Debug, Eq, PartialOrd, Ord, Hash)]
pub struct Digest {
    pub bytes: [u8; 32],
}

impl PartialEq for Digest {
    fn eq(&self, other: &Self) -> (same: bool) {
        same_bytes(&self.bytes, &other.bytes)
    }
}

impl PartialEqSpecImpl for Digest {
    open spec fn obeys_eq_spec() -> bool {
        true
    }

    open spec fn eq_spec(&self, other: &Self) -> bool {
        *self == *other
    }
}

impl View for Digest {
    type V = Seq<u8>;

    open spec fn view(&self) -> Seq<u8> {
        self.bytes@
    }
}

} // verus!
