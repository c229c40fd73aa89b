//! Signed epoch outcomes: the unit in which the federation agrees.

use vstd::prelude::*;
use vstd::std_specs::cmp::PartialEqSpecImpl;
use crate::codec::encode_epoch;
use crate::codec::epoch_bytes;
use crate::codec::views_of;
use crate::crypto::sha256;
use crate::crypto::sha256_digest;
use crate::crypto::threshold_signature_valid;
use crate::crypto::verify_threshold_signature;
use crate::types::ConsensusItem;
use crate::types::ConsensusItemView;
use crate::types::EpochIndex;
use crate::types::PeerId;

verus! {

/// One epoch as the broadcast layer hands it out: the items that the
/// federation agreed on, in the order in which they are to be applied, each
/// with the peer that proposed it, under the federation's threshold signature.
#[derive(Clone, Debug)]
pub struct SignedEpochOutcome {
    pub epoch: EpochIndex,
    pub items: Vec<(PeerId, ConsensusItem)>,
    /// Compressed threshold signature over [`SignedEpochOutcome::consensus_hash`].
    pub signature: [u8; 96],
}

/// What a [`SignedEpochOutcome`] is, mathematically.
pub struct SignedEpochOutcomeView {
    pub epoch: EpochIndex,
    pub items: Seq<(PeerId, ConsensusItemView)>,
    pub signature: Seq<u8>,
}

impl View for SignedEpochOutcome {
    type V = SignedEpochOutcomeView;

    open spec fn view(&self) -> SignedEpochOutcomeView {
        SignedEpochOutcomeView {
            epoch: self.epoch,
            items: views_of(self.items@),
            signature: self.signature@,
        }
    }
}

/// Why an epoch outcome is not accepted.
#[derive(Clone, Copy, Debug, PartialEq, Eq)]
pub enum EpochVerifyError {
    /// The signature is not one that the epoch public key accepts for this outcome.
    InvalidSignature,
}

impl SignedEpochOutcomeView {
    /// The hash that the signature is made over: SHA-256 of the epoch's
    /// number and entries as [`encode_epoch`] lays them out.
    pub open spec fn consensus_hash(self) -> Seq<u8> {
        sha256(encode_epoch(self.epoch, self.items))
    }

    /// Whether the outcome's signature is a valid signature, under the key
    /// `epoch_pk`, over the outcome's hash.
    pub open spec fn signed_by(self, epoch_pk: Seq<u8>) -> bool {
        threshold_signature_valid(epoch_pk, self.signature, self.consensus_hash())
    }
}

impl SignedEpochOutcome {
    /// The hash that the signature is made over.
    pub fn consensus_hash(&self) -> (hash: [u8; 32])
        ensures
            hash@ == self@.consensus_hash(),
    {
        let bytes = epoch_bytes(self.epoch, &self.items);
        sha256_digest(bytes.as_slice())
    }

    /// Checks the outcome's threshold signature against the key `epoch_pk`.
    pub fn verify_sig(&self, epoch_pk: &[u8; 48]) -> (res: Result<(), EpochVerifyError>)
        ensures
            res is Ok <==> self@.signed_by(epoch_pk@),
            res is Err ==> res == Err::<(), EpochVerifyError>(EpochVerifyError::InvalidSignature),
    {
        let hash = self.consensus_hash();
        if verify_threshold_signature(epoch_pk, &self.signature, hash.as_slice()) {
            Ok(())
        } else {
            Err(EpochVerifyError::InvalidSignature)
        }
    }

    /// Whether `self` and `other` are the same outcome: same epoch, same
    /// entries in the same order, same signature.
    pub fn same_as(&self, other: &SignedEpochOutcome) -> (same: bool)
        ensures
            same == (self@ == other@),
    {
        if self.epoch != other.epoch || self.items.len() != other.items.len() {
            assert(self@.items.len() == self.items@.len());
            assert(other@.items.len() == other.items@.len());
            return false;
        }
        let mut k: usize = 0;
        while k < 96
            invariant
                k <= 96,
                forall|j: int| 0 <= j < k ==> self.signature@[j] == other.signature@[j],
            decreases 96 - k,
        {
            if self.signature[k] != other.signature[k] {
                return false;
            }
            k += 1;
        }
        assert(self.signature@ =~= other.signature@);
        let mut i: usize = 0;
        while i < self.items.len()
            invariant
                i <= self.items.len(),
                self.items.len() == other.items.len(),
                forall|j: int| 0 <= j < i ==> self@.items[j] == other@.items[j],
            decreases self.items.len() - i,
        {
            let same_peer = self.items[i].0 == other.items[i].0;
            let same_item = self.items[i].1.same_as(&other.items[i].1);
            if !(same_peer && same_item) {
                assert(self@.items[i as int] != other@.items[i as int]);
                return false;
            }
            i += 1;
        }
        assert(self@.items =~= other@.items);
        true
    }
}

impl PartialEq for SignedEpochOutcome {
    fn eq(&self, other: &SignedEpochOutcome) -> (same: bool) {
        self.same_as(other)
    }
}

impl Eq for SignedEpochOutcome {

}

impl PartialEqSpecImpl for SignedEpochOutcome {
    open spec fn obeys_eq_spec() -> bool {
        true
    }

    open spec fn eq_spec(&self, other: &SignedEpochOutcome) -> bool {
        self@ == other@
    }
}

} // verus!
