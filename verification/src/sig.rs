//! Signatures: the pair `(r, s)`, with or without a recovery identifier.

use crate::error::Error;
use crate::uint::{be_nat, U256};
use vstd::prelude::*;
use vstd::slice::slice_subrange;

verus! {

/// An ECDSA signature: the integers `r` and `s`, each as 32 big-endian
/// bytes would hold it.
///
/// Any pair can be held. Whether `r` and `s` are in range, and whether `s`
/// is in the lower half, is decided when the signature is verified.
#[derive(Clone, Copy, Debug)]
pub struct Signature {
    pub(crate) r: U256,
    pub(crate) s: U256,
}

impl Signature {
    /// The pair `(r, s)` as integers.
    pub closed spec fn view(self) -> (nat, nat) {
        (self.r.value(), self.s.value())
    }

    /// The signature with the given components.
    pub fn from_scalars(r: &[u8; 32], s: &[u8; 32]) -> (sig: Signature)
        ensures
            sig@ == (be_nat(r@), be_nat(s@)),
    {
        Signature { r: U256::from_be_bytes(r), s: U256::from_be_bytes(s) }
    }

    /// Decodes the 64-byte form: `r` followed by `s`. Any other length is a
    /// decoding error.
    pub fn from_bytes(bytes: &[u8]) -> (res: Result<Signature, Error>)
        ensures
            res.is_ok() == (bytes@.len() == 64),
            res.is_ok() ==> res.unwrap()@ == (
                be_nat(bytes@.subrange(0, 32)),
                be_nat(bytes@.subrange(32, 64)),
            ),
            res.is_err() ==> res == Err::<Signature, Error>(Error::Decoding),
    {
        if bytes.len() != 64 {
            return Err(Error::Decoding);
        }
        let r = U256::from_be_slice(slice_subrange(bytes, 0, 32));
        let s = U256::from_be_slice(slice_subrange(bytes, 32, 64));
        Ok(Signature { r, s })
    }

    /// The 64-byte form: `r` followed by `s`, each most significant byte
    /// first.
    pub fn to_bytes(&self) -> (out: Vec<u8>)
        ensures
            out@.len() == 64,
            be_nat(out@.subrange(0, 32)) == self@.0,
            be_nat(out@.subrange(32, 64)) == self@.1,
    {
        let mut out = self.r.to_be_bytes();
        let mut tail = self.s.to_be_bytes();
        let ghost head = out@;
        let ghost rest = tail@;
        out.append(&mut tail);
        assert(out@.subrange(0, 32) == head);
        assert(out@.subrange(32, 64) == rest);
        out
    }

    /// The component `r`.
    pub fn r(&self) -> (r: U256)
        ensures
            r.value() == self@.0,
    {
        self.r
    }

    /// The component `s`.
    pub fn s(&self) -> (s: U256)
        ensures
            s.value() == self@.1,
    {
        self.s
    }
}

/// A signature together with a recovery identifier, which is 0 or 1.
///
/// The identifier tells which of two candidate keys made the signature. It
/// plays no part in verification.
#[derive(Clone, Copy, Debug)]
pub struct RecoverableSignature {
    pub(crate) signature: Signature,
    pub(crate) recovery_id: u8,
}

impl RecoverableSignature {
    /// The pair `(r, s)` as integers.
    pub closed spec fn view(self) -> (nat, nat) {
        self.signature@
    }

    /// The recovery identifier.
    pub closed spec fn id(self) -> u8 {
        self.recovery_id
    }

    /// The identifier is 0 or 1.
    pub open spec fn wf(self) -> bool {
        self.id() <= 1
    }

    /// Joins a signature and a recovery identifier; an identifier other
    /// than 0 and 1 is a decoding error.
    pub fn new(signature: &Signature, recovery_id: u8) -> (res: Result<
        RecoverableSignature,
        Error,
    >)
        ensures
            res.is_ok() == (recovery_id <= 1),
            res.is_ok() ==> res.unwrap()@ == signature@ && res.unwrap().id() == recovery_id,
            res.is_err() ==> res == Err::<RecoverableSignature, Error>(Error::Decoding),
    {
        if recovery_id > 1 {
            Err(Error::Decoding)
        } else {
            Ok(RecoverableSignature { signature: *signature, recovery_id })
        }
    }

    /// Decodes the 65-byte form: `r`, `s`, then one byte that holds the
    /// recovery identifier. Another length, or an identifier other than 0
    /// and 1, is a decoding error.
    pub fn from_bytes(bytes: &[u8]) -> (res: Result<RecoverableSignature, Error>)
        ensures
            res.is_ok() == (bytes@.len() == 65 && bytes@[64] <= 1),
            res.is_ok() ==> res.unwrap()@ == (
                be_nat(bytes@.subrange(0, 32)),
                be_nat(bytes@.subrange(32, 64)),
            ) && res.unwrap().id() == bytes@[64],
            res.is_err() ==> res == Err::<RecoverableSignature, Error>(Error::Decoding),
    {
        if bytes.len() != 65 {
            return Err(Error::Decoding);
        }
        let r = U256::from_be_slice(slice_subrange(bytes, 0, 32));
        let s = U256::from_be_slice(slice_subrange(bytes, 32, 64));
        RecoverableSignature::new(&Signature { r, s }, bytes[64])
    }

    /// The recovery identifier.
    pub fn recovery_id(&self) -> (id: u8)
        ensures
            id == self.id(),
    {
        self.recovery_id
    }

    /// The plain signature: the same `(r, s)`, the recovery identifier
    /// dropped.
    pub fn to_signature(&self) -> (sig: Signature)
        ensures
            sig@ == self@,
    {
        self.signature
    }
}

} // verus!
