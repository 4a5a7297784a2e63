//! Verification keys and the ECDSA verification equation.

use crate::curve::{decompress, ec_add, ec_mul, generator, on_curve, AffinePoint, Point};
use crate::digest::{sha256, sha256_digest};
use crate::error::Error;
use crate::modular::mul_mod;
use crate::scalar::{group_order, is_high, scalar_inv, NonZeroScalar, Scalar};
use crate::sec1::{well_framed, EncodedPoint};
use crate::sig::{RecoverableSignature, Signature};
use crate::uint::be_nat;
use vstd::prelude::*;

verus! {

/// Whether the signature `(r, s)` over the message scalar `z` verifies under
/// the public key `q`.
///
/// Both components must lie in `1 .. n`, `s` must lie in the lower half,
/// and with `u1 = z / s` and `u2 = r / s` modulo `n` the point
/// `u1 * G + u2 * q` must be finite and its abscissa, reduced modulo `n`,
/// must be `r`.
pub open spec fn accepts(q: (nat, nat), z: nat, r: nat, s: nat) -> bool {
    let n = group_order();
    &&& 0 < r < n
    &&& 0 < s < n
    &&& !is_high(s)
    &&& match ec_add(
        ec_mul(mul_mod(z, scalar_inv(s), n), Some(generator())),
        ec_mul(mul_mod(r, scalar_inv(s), n), Some(q)),
    ) {
        Some((x, _)) => x % n == r,
        None => false,
    }
}

/// What a verification returns: nothing on acceptance, and on rejection the
/// one error that all rejections share.
pub open spec fn verdict(accepted: bool) -> Result<(), Error> {
    if accepted {
        Ok(())
    } else {
        Err(Error::InvalidSignature)
    }
}

/// The curve point that an encoded point stands for, if it stands for one.
pub open spec fn decode_point(e: EncodedPoint) -> Option<(nat, nat)> {
    match e {
        EncodedPoint::Compressed { y_is_odd, x } => decompress(x.value(), y_is_odd),
        EncodedPoint::Uncompressed { x, y } => if on_curve(x.value(), y.value()) {
            Some((x.value(), y.value()))
        } else {
            None
        },
    }
}

/// The curve point that a SEC1 byte string stands for, if it stands for one.
pub open spec fn decode_key(bytes: Seq<u8>) -> Option<(nat, nat)> {
    if !well_framed(bytes) {
        None
    } else if bytes[0] == 4 {
        let x = be_nat(bytes.subrange(1, 33));
        let y = be_nat(bytes.subrange(33, 65));
        if on_curve(x, y) {
            Some((x, y))
        } else {
            None
        }
    } else {
        decompress(be_nat(bytes.subrange(1, 33)), bytes[0] == 3)
    }
}

impl AffinePoint {
    /// Verifies a signature over the message scalar `z`, with this point as
    /// the public key.
    pub fn verify_prehashed(&self, z: &Scalar, signature: &Signature) -> (res: Result<
        (),
        Error,
    >)
        requires
            self.wf(),
        ensures
            res == verdict(accepts(self@, z@, signature@.0, signature@.1)),
    {
        let maybe_r = NonZeroScalar::from_u256(&signature.r());
        let maybe_s = NonZeroScalar::from_u256(&signature.s());
        let (r, s) = match (maybe_r, maybe_s) {
            (Some(r), Some(s)) => (r, s),
            _ => {
                return Err(Error::InvalidSignature);
            },
        };
        if s.is_high() {
            return Err(Error::InvalidSignature);
        }
        let s_inv = s.invert();
        let u1 = z.mul(&s_inv);
        let u2 = r.to_scalar().mul(&s_inv);
        let g = Point::Finite(AffinePoint::generator());
        let q = Point::Finite(*self);
        let sum = g.mul(&u1.to_u256()).add(&q.mul(&u2.to_u256()));
        match sum.to_affine() {
            Some(point) => {
                if Scalar::from_u256_reduced(&point.x()).eq(&r.to_scalar()) {
                    Ok(())
                } else {
                    Err(Error::InvalidSignature)
                }
            },
            None => Err(Error::InvalidSignature),
        }
    }
}

/// A public key: a point that was checked to lie on the curve.
#[derive(Clone, Copy, Debug)]
pub struct VerifyKey {
    pub(crate) point: AffinePoint,
}

impl VerifyKey {
    /// The coordinates of the key's point.
    pub closed spec fn view(self) -> (nat, nat) {
        self.point@
    }

    /// The point lies on the curve.
    pub open spec fn wf(self) -> bool {
        on_curve(self@.0, self@.1)
    }

    /// Decodes a SEC1 public key, compressed or uncompressed. Bytes that do
    /// not stand for a point on the curve are a decoding error.
    pub fn new(bytes: &[u8]) -> (res: Result<VerifyKey, Error>)
        ensures
            match res {
                Ok(key) => decode_key(bytes@) == Some(key@) && key.wf(),
                Err(e) => decode_key(bytes@).is_none() && e == Error::Decoding,
            },
    {
        match EncodedPoint::from_bytes(bytes) {
            Ok(point) => VerifyKey::from_encoded_point(&point),
            Err(e) => Err(e),
        }
    }

    /// The key that an encoded point stands for. A point that is not on the
    /// curve is a decoding error.
    pub fn from_encoded_point(public_key: &EncodedPoint) -> (res: Result<VerifyKey, Error>)
        ensures
            match res {
                Ok(key) => decode_point(*public_key) == Some(key@) && key.wf(),
                Err(e) => decode_point(*public_key).is_none() && e == Error::Decoding,
            },
    {
        let decoded = match public_key {
            EncodedPoint::Compressed { y_is_odd, x } => AffinePoint::decompress(x, *y_is_odd),
            EncodedPoint::Uncompressed { x, y } => AffinePoint::from_coordinates(x, y),
        };
        match decoded {
            Some(point) => Ok(VerifyKey { point }),
            None => Err(Error::Decoding),
        }
    }

    /// The key's point.
    pub fn to_affine(&self) -> (a: AffinePoint)
        ensures
            a@ == self@,
    {
        self.point
    }

    /// Verifies a signature over a finished 32-byte digest, which is read as
    /// a big-endian integer and reduced modulo the group order.
    pub fn verify_digest(&self, digest: &[u8; 32], signature: &Signature) -> (res: Result<
        (),
        Error,
    >)
        requires
            self.wf(),
        ensures
            res == signature.verdict_under(*self, digest@),
    {
        let z = Scalar::from_bytes_reduced(digest);
        self.point.verify_prehashed(&z, signature)
    }

    /// Verifies a recoverable signature over a finished 32-byte digest. The
    /// recovery identifier is dropped first and plays no part.
    pub fn verify_digest_recoverable(
        &self,
        digest: &[u8; 32],
        signature: &RecoverableSignature,
    ) -> (res: Result<(), Error>)
        requires
            self.wf(),
        ensures
            res == signature.verdict_under(*self, digest@),
    {
        self.verify_digest(digest, &signature.to_signature())
    }

    /// Verifies a signature over a message, which is hashed with SHA-256.
    pub fn verify(&self, msg: &[u8], signature: &Signature) -> (res: Result<(), Error>)
        requires
            self.wf(),
        ensures
            res == signature.verdict_under(*self, sha256(msg@)),
    {
        let digest = sha256_digest(msg);
        self.verify_digest(&digest, signature)
    }

    /// Verifies a recoverable signature over a message, which is hashed with
    /// SHA-256. The recovery identifier plays no part.
    pub fn verify_recoverable(&self, msg: &[u8], signature: &RecoverableSignature) -> (res:
        Result<(), Error>)
        requires
            self.wf(),
        ensures
            res == signature.verdict_under(*self, sha256(msg@)),
    {
        self.verify(msg, &signature.to_signature())
    }
}

/// A signature whose `r` or `s` is zero is rejected, whatever the key and
/// the message.
pub proof fn lemma_zero_component_rejected(key: VerifyKey, digest: Seq<u8>, signature: Signature)
    requires
        signature@.0 == 0 || signature@.1 == 0,
    ensures
        signature.verdict_under(key, digest) == Err::<(), Error>(Error::InvalidSignature),
{
}

/// Bytes that are all zero stand for the integer zero, so a signature read
/// from 32 zero bytes for `r` or for `s` has a zero component.
pub proof fn lemma_zero_bytes(bytes: Seq<u8>)
    requires
        forall|i: int| 0 <= i < bytes.len() ==> bytes[i] == 0,
    ensures
        be_nat(bytes) == 0,
    decreases bytes.len(),
{
    if bytes.len() > 0 {
        lemma_zero_bytes(bytes.drop_last());
    }
}

/// The twin `(r, n - s)` of a signature whose `s` lies in the lower half is
/// rejected, although the bare verification equation cannot tell the two
/// apart.
pub proof fn lemma_high_twin_rejected(
    key: VerifyKey,
    digest: Seq<u8>,
    signature: Signature,
    twin: Signature,
)
    requires
        signature@.1 <= group_order() / 2,
        twin@.0 == signature@.0,
        twin@.1 == group_order() - signature@.1,
    ensures
        twin.verdict_under(key, digest) == Err::<(), Error>(Error::InvalidSignature),
{
}

/// Two recoverable signatures with the same `(r, s)` are accepted or
/// rejected together, and together with the plain signature that holds
/// this pair: the recovery identifier has no say.
pub proof fn lemma_recovery_id_ignored(
    key: VerifyKey,
    digest: Seq<u8>,
    a: RecoverableSignature,
    b: RecoverableSignature,
    plain: Signature,
)
    requires
        a@ == plain@,
        b@ == plain@,
    ensures
        a.verdict_under(key, digest) == plain.verdict_under(key, digest),
        b.verdict_under(key, digest) == plain.verdict_under(key, digest),
{
}

/// A verification never reports a decoding error: it accepts, or it rejects
/// with the one error that says no more.
pub proof fn lemma_rejection_is_uniform(key: VerifyKey, digest: Seq<u8>, signature: Signature)
    ensures
        signature.verdict_under(key, digest) == Ok::<(), Error>(())
            || signature.verdict_under(key, digest) == Err::<(), Error>(
            Error::InvalidSignature,
        ),
{
}

impl Signature {
    /// What verifying this signature over a finished digest returns: the
    /// digest is read as a big-endian integer and reduced modulo the group
    /// order.
    pub open spec fn verdict_under(self, key: VerifyKey, digest: Seq<u8>) -> Result<(), Error> {
        verdict(accepts(key@, be_nat(digest) % group_order(), self@.0, self@.1))
    }
}

impl RecoverableSignature {
    /// What verifying this signature over a finished digest returns.
    pub open spec fn verdict_under(self, key: VerifyKey, digest: Seq<u8>) -> Result<(), Error> {
        verdict(accepts(key@, be_nat(digest) % group_order(), self@.0, self@.1))
    }
}

} // verus!
