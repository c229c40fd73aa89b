//! The two cryptographic primitives that epochs rest on. Both are computed
//! by outside code; what is claimed of them here is believed, not proved.

use vstd::prelude::*;

verus! {

/// Length of a compressed public key.
pub const PK_SIZE: usize = 48;

/// Length of a compressed signature.
pub const SIG_SIZE: usize = 96;

/// The SHA-256 digest of `data`, as `bitcoin_hashes` computes it.
pub uninterp spec fn sha256(data: Seq<u8>) -> Seq<u8>;

/// Whether `sig` is the compressed encoding of a signature that the public
/// key with the compressed encoding `pk` accepts for the message `msg`, as
/// `threshold_crypto` decides it. Bytes that decode to no key, or to no
/// signature, are not accepted.
pub uninterp spec fn threshold_signature_valid(pk: Seq<u8>, sig: Seq<u8>, msg: Seq<u8>) -> bool;

/// Calls `bitcoin_hashes::sha256::Hash::hash` and hands out the digest's 32
/// bytes. Claimed: the digest depends on `data` alone.
#[verifier::external_body]
pub(crate) fn sha256_digest(data: &[u8]) -> (digest: [u8; 32])
    ensures
        digest@ == sha256(data@),
{
    let hash: bitcoin_hashes::sha256::Hash = bitcoin_hashes::Hash::hash(data);
    bitcoin_hashes::Hash::into_inner(hash)
}

/// Decodes key and signature with `threshold_crypto`'s `from_bytes` and calls
/// `PublicKey::verify`. Claimed: the verdict depends on the three byte
/// strings alone; where either decoding fails the verdict is `false`.
#[verifier::external_body]
pub(crate) fn verify_threshold_signature(pk: &[u8; 48], sig: &[u8; 96], msg: &[u8]) -> (ok: bool)
    ensures
        ok == threshold_signature_valid(pk@, sig@, msg@),
{
    let key = threshold_crypto::PublicKey::from_bytes(pk);
    let signature = threshold_crypto::Signature::from_bytes(sig);
    match (key, signature) {
        (Ok(key), Ok(signature)) => key.verify(&signature, msg),
        _ => false,
    }
}

} // verus!
