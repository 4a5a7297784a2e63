//! The message digest that signatures are made over.

use vstd::prelude::*;

verus! {

/// The SHA-256 digest of a message, as `sha2::Sha256` computes it.
pub uninterp spec fn sha256(msg: Seq<u8>) -> Seq<u8>;

/// Calls `sha2::Sha256::digest`, which hashes the whole message in one go
/// and returns the 32 bytes of its SHA-256 digest.
#[verifier::external_body]
pub(crate) fn sha256_digest(msg: &[u8]) -> (r: [u8; 32])
    ensures
        r@ == sha256(msg@),
{
    <sha2::Sha256 as sha2::Digest>::digest(msg).into()
}

} // verus!
