//! Certificates, as far as the consensus core reads them.

use crate::identity::{Digest, PublicKey};
use crate::rounds::Round;
use vstd::prelude::*;

verus! {

/// What the consensus core reads of a certificate. The digest is computed
/// where the certificate is made and is carried here as a value.
#[derive(Debug)]
pub struct Certificate {
    /// The authority that issued the certificate.
    pub origin: PublicKey,
    /// The content hash of the certificate.
    pub digest: Digest,
    /// The round in the DAG of the reliable broadcast.
    pub round: Round,
    /// The round in the virtual DAG; 0 where there is no virtual metadata.
    pub virtual_round: Round,
    /// The digests of the parents in the virtual DAG.
    pub virtual_parents: Vec<Digest>,
}

/// The mathematical value of a certificate.
pub struct CertificateView {
    pub origin: PublicKey,
    pub digest: Digest,
    pub round: Round,
    pub virtual_round: Round,
    pub virtual_parents: Seq<Digest>,
}

impl View for Certificate {
    type V = CertificateView;

    open spec fn view(&self) -> CertificateView {
        CertificateView {
            origin: self.origin,
            digest: self.digest,
            round: self.round,
            virtual_round: self.virtual_round,
            virtual_parents: self.virtual_parents@,
        }
    }
}

impl Clone for Certificate {
    fn clone(&self) -> (copy: Certificate)
        ensures
            copy@ == self@,
    {
        let mut parents: Vec<Digest> = Vec::new();
        let mut i: usize = 0;
        while i < self.virtual_parents.len()
            invariant
                i <= self.virtual_parents.len(),
                parents@ == self.virtual_parents@.take(i as int),
            decreases self.virtual_parents.len() - i,
        {
            parents.push(self.virtual_parents[i]);
            i += 1;
        }
        assert(self.virtual_parents@.take(i as int) == self.virtual_parents@);
        Certificate {
            origin: self.origin,
            digest: self.digest,
            round: self.round,
            virtual_round: self.virtual_round,
            virtual_parents: parents,
        }
    }
}

impl Certificate {
    /// The authority that issued the certificate.
    pub fn origin(&self) -> (origin: PublicKey)
        ensures
            origin == self@.origin,
    {
        self.origin
    }

    /// The content hash of the certificate.
    pub fn digest(&self) -> (digest: Digest)
        ensures
            digest == self@.digest,
    {
        self.digest
    }

    /// The round in the DAG of the reliable broadcast.
    pub fn round(&self) -> (round: Round)
        ensures
            round == self@.round,
    {
        self.round
    }

    /// The round in the virtual DAG.
    pub fn virtual_round(&self) -> (round: Round)
        ensures
            round == self@.virtual_round,
    {
        self.virtual_round
    }

    /// The digests of the parents in the virtual DAG.
    pub fn virtual_parents(&self) -> (parents: &Vec<Digest>)
        ensures
            parents@ == self@.virtual_parents,
    {
        &self.virtual_parents
    }
}

} // verus!
