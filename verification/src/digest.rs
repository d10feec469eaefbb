//! The two capabilities that the event model takes from outside: a
//! cryptographic digest and a source of randomness.

use vstd::prelude::*;

verus! {

/// The SHA-256 digest of `data`.
pub uninterp spec fn sha256_digest(data: Seq<u8>) -> Seq<u8>;

/// Calls `Sha256::new`, `update` and `finalize_into` of the crate `sha2`:
/// the 32 bytes that come out are the SHA-256 digest of `data`, which
/// depends on `data` alone.
#[verifier::external_body]
pub(crate) fn sha256(data: &[u8]) -> (out: [u8; 32])
    ensures
        out@ == sha256_digest(data@),
{
    let mut out = [0u8; 32];
    let mut hasher = <sha2::Sha256 as sha2::Digest>::new();
    sha2::Digest::update(&mut hasher, data);
    sha2::Digest::finalize_into(hasher, (&mut out).into());
    out
}

/// Calls `rand::random` for 32 bytes from the thread's random number
/// generator. Nothing is known of the bytes.
#[verifier::external_body]
pub(crate) fn random_nonce() -> (nonce: [u8; 32]) {
    rand::random()
}

} // verus!
