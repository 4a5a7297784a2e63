//! Integers modulo the order `n` of the secp256k1 group.

use crate::modular::{add_mod, lemma_pow_mod_bound, mul_mod, pow_mod, Modulus};
use crate::uint::{be_nat, limbs4, U256};
use vstd::prelude::*;

verus! {

/// The group order `n`.
pub open spec fn group_order() -> nat {
    limbs4(
        0xBFD2_5E8C_D036_4141,
        0xBAAE_DCE6_AF48_A03B,
        0xFFFF_FFFF_FFFF_FFFE,
        0xFFFF_FFFF_FFFF_FFFF,
    )
}

/// The inverse of a nonzero scalar, `a^(n - 2)`.
pub open spec fn scalar_inv(a: nat) -> nat {
    pow_mod(a, (group_order() - 2) as nat, group_order())
}

/// Whether a scalar lies in the upper half of the range, above `n / 2`.
pub open spec fn is_high(a: nat) -> bool {
    a > group_order() / 2
}

/// The group order as a modulus to compute with.
pub fn order() -> (f: Modulus)
    ensures
        f.wf(),
        f.value() == group_order(),
{
    Modulus {
        m: U256 {
            l0: 0xBFD2_5E8C_D036_4141,
            l1: 0xBAAE_DCE6_AF48_A03B,
            l2: 0xFFFF_FFFF_FFFF_FFFE,
            l3: 0xFFFF_FFFF_FFFF_FFFF,
        },
        c: U256 { l0: 0x402D_A173_2FC9_BEBF, l1: 0x4551_2319_50B7_5FC4, l2: 1, l3: 0 },
    }
}

/// An integer modulo the group order, always reduced.
#[derive(Clone, Copy, Debug)]
pub struct Scalar {
    pub(crate) repr: U256,
}

impl Scalar {
    /// The integer this scalar stands for.
    pub closed spec fn view(self) -> nat {
        self.repr.value()
    }

    /// The value is reduced.
    pub open spec fn wf(self) -> bool {
        self@ < group_order()
    }

    /// Reduces an integer below `2^256` modulo the group order.
    pub fn from_u256_reduced(x: &U256) -> (r: Scalar)
        ensures
            r.wf(),
            r@ == x.value() % group_order(),
    {
        Scalar { repr: order().reduce(x) }
    }

    /// The scalar that an integer below the group order stands for; `None`
    /// for any other integer.
    pub fn from_u256(x: &U256) -> (r: Option<Scalar>)
        ensures
            r.is_some() == (x.value() < group_order()),
            r.is_some() ==> r.unwrap()@ == x.value() && r.unwrap().wf(),
    {
        if x.lt(&order().m) {
            Some(Scalar { repr: *x })
        } else {
            None
        }
    }

    /// Decodes 32 big-endian bytes; `None` unless they stand for an integer
    /// below the group order.
    pub fn from_bytes(bytes: &[u8; 32]) -> (r: Option<Scalar>)
        ensures
            r.is_some() == (be_nat(bytes@) < group_order()),
            r.is_some() ==> r.unwrap()@ == be_nat(bytes@) && r.unwrap().wf(),
    {
        Scalar::from_u256(&U256::from_be_bytes(bytes))
    }

    /// Decodes 32 big-endian bytes and reduces them modulo the group order.
    pub fn from_bytes_reduced(bytes: &[u8; 32]) -> (r: Scalar)
        ensures
            r.wf(),
            r@ == be_nat(bytes@) % group_order(),
    {
        Scalar::from_u256_reduced(&U256::from_be_bytes(bytes))
    }

    /// The integer as a [`U256`].
    pub fn to_u256(&self) -> (r: U256)
        ensures
            r.value() == self@,
    {
        self.repr
    }

    /// Whether this is the scalar zero.
    pub fn is_zero(&self) -> (r: bool)
        ensures
            r == (self@ == 0),
    {
        self.repr.is_zero()
    }

    /// Whether the scalar is above `n / 2`.
    pub fn is_high(&self) -> (r: bool)
        ensures
            r == is_high(self@),
    {
        let half = U256 {
            l0: 0xDFE9_2F46_681B_20A0,
            l1: 0x5D57_6E73_57A4_501D,
            l2: 0xFFFF_FFFF_FFFF_FFFF,
            l3: 0x7FFF_FFFF_FFFF_FFFF,
        };
        assert(half.value() == group_order() / 2);
        half.lt(&self.repr)
    }

    /// Whether the two scalars are the same.
    pub fn eq(&self, other: &Scalar) -> (r: bool)
        ensures
            r == (self@ == other@),
    {
        self.repr.eq(&other.repr)
    }

    /// The 32 bytes of the scalar, most significant first.
    pub fn to_bytes(&self) -> (out: Vec<u8>)
        ensures
            out@.len() == 32,
            be_nat(out@) == self@,
    {
        self.repr.to_be_bytes()
    }

    /// The sum modulo the group order.
    pub fn add(&self, other: &Scalar) -> (r: Scalar)
        requires
            self.wf(),
            other.wf(),
        ensures
            r.wf(),
            r@ == add_mod(self@, other@, group_order()),
    {
        Scalar { repr: order().add(&self.repr, &other.repr) }
    }

    /// The product modulo the group order.
    pub fn mul(&self, other: &Scalar) -> (r: Scalar)
        ensures
            r.wf(),
            r@ == mul_mod(self@, other@, group_order()),
    {
        Scalar { repr: order().mul(&self.repr, &other.repr) }
    }

    /// The inverse of a nonzero scalar; zero has none.
    pub fn invert(&self) -> (r: Option<Scalar>)
        ensures
            r.is_some() == (self@ != 0),
            r.is_some() ==> r.unwrap()@ == scalar_inv(self@) && r.unwrap().wf(),
    {
        if self.repr.is_zero() {
            None
        } else {
            let e = U256 {
                l0: 0xBFD2_5E8C_D036_413F,
                l1: 0xBAAE_DCE6_AF48_A03B,
                l2: 0xFFFF_FFFF_FFFF_FFFE,
                l3: 0xFFFF_FFFF_FFFF_FFFF,
            };
            proof {
                lemma_pow_mod_bound(self@, e.value(), group_order());
            }
            Some(Scalar { repr: order().pow(&self.repr, &e) })
        }
    }
}

/// A scalar that is not zero.
#[derive(Clone, Copy, Debug)]
pub struct NonZeroScalar {
    pub(crate) scalar: Scalar,
}

impl NonZeroScalar {
    /// The integer this scalar stands for.
    pub closed spec fn view(self) -> nat {
        self.scalar@
    }

    /// The value is reduced and not zero.
    pub open spec fn wf(self) -> bool {
        0 < self@ < group_order()
    }

    /// The nonzero scalar that an integer in `1 .. n` stands for; `None` for
    /// zero and for anything from the group order up.
    pub fn from_u256(x: &U256) -> (r: Option<NonZeroScalar>)
        ensures
            r.is_some() == (0 < x.value() < group_order()),
            r.is_some() ==> r.unwrap()@ == x.value() && r.unwrap().wf(),
    {
        match Scalar::from_u256(x) {
            Some(scalar) => if scalar.is_zero() {
                None
            } else {
                Some(NonZeroScalar { scalar })
            },
            None => None,
        }
    }

    /// Decodes 32 big-endian bytes; `None` if they stand for zero or for an
    /// integer that is not below the group order.
    pub fn from_bytes(bytes: &[u8; 32]) -> (r: Option<NonZeroScalar>)
        ensures
            r.is_some() == (0 < be_nat(bytes@) < group_order()),
            r.is_some() ==> r.unwrap()@ == be_nat(bytes@) && r.unwrap().wf(),
    {
        NonZeroScalar::from_u256(&U256::from_be_bytes(bytes))
    }

    /// The same value as a plain scalar.
    pub fn to_scalar(&self) -> (r: Scalar)
        ensures
            r@ == self@,
            r.wf() == (self@ < group_order()),
    {
        self.scalar
    }

    /// Whether the scalar is above `n / 2`.
    pub fn is_high(&self) -> (r: bool)
        ensures
            r == is_high(self@),
    {
        self.scalar.is_high()
    }

    /// The inverse, `self^(n - 2)`.
    pub fn invert(&self) -> (r: Scalar)
        requires
            self.wf(),
        ensures
            r.wf(),
            r@ == scalar_inv(self@),
    {
        self.scalar.invert().unwrap()
    }
}

} // verus!
