//! The two ways in which an operation of this crate fails.

use vstd::prelude::*;

verus! {

/// Why a key or signature was not accepted.
///
/// A rejected signature is never explained further: which component was
/// malformed, or at which step the equation failed, is not reported.
#[derive(Clone, Copy, Debug, PartialEq, Eq, Structural)]
pub enum Error {
    /// The bytes are not a well-formed encoding of a key or signature.
    Decoding,
    /// The signature does not verify.
    InvalidSignature,
}

} // verus!
