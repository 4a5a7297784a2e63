//! 256-bit unsigned integers as four 64-bit limbs.

use elliptic_curve::util::{adc64, mac64, sbb64};
use vstd::arithmetic::power2::{lemma2_to64, lemma_pow2_adds, lemma_pow2_strictly_increases, pow2};
use vstd::prelude::*;

verus! {

/// `2^256`, one more than the largest value a [`U256`] holds.
pub open spec fn two_256() -> nat {
    115792089237316195423570985008687907853269984665640564039457584007913129639936nat
}

/// The number that four limbs stand for, least significant first.
pub open spec fn limbs4(l0: u64, l1: u64, l2: u64, l3: u64) -> nat {
    l0 as nat + 0x1_0000_0000_0000_0000nat * (l1 as nat + 0x1_0000_0000_0000_0000nat * (l2 as nat
        + 0x1_0000_0000_0000_0000nat * (l3 as nat)))
}

/// A 256-bit unsigned integer; `l0` is the least significant limb.
#[derive(Clone, Copy, Debug)]
pub struct U256 {
    pub l0: u64,
    pub l1: u64,
    pub l2: u64,
    pub l3: u64,
}

impl U256 {
    /// The integer this value stands for.
    pub open spec fn value(self) -> nat {
        limbs4(self.l0, self.l1, self.l2, self.l3)
    }

    /// Two values that stand for the same integer have the same limbs.
    pub proof fn lemma_value_injective(self, other: U256)
        requires
            self.value() == other.value(),
        ensures
            self == other,
    {
    }

    /// The integer zero.
    pub fn zero() -> (r: U256)
        ensures
            r.value() == 0,
    {
        U256 { l0: 0, l1: 0, l2: 0, l3: 0 }
    }

    /// The integer that one limb holds.
    pub fn from_u64(x: u64) -> (r: U256)
        ensures
            r.value() == x,
    {
        U256 { l0: x, l1: 0, l2: 0, l3: 0 }
    }

    /// Full addition: the sum modulo `2^256` and whether it carried out.
    pub fn adc(&self, rhs: &U256) -> (r: (U256, bool))
        ensures
            r.0.value() + (if r.1 { two_256() } else { 0 }) == self.value() + rhs.value(),
    {
        let (l0, c0) = adc64(self.l0, rhs.l0, 0);
        let (l1, c1) = adc64(self.l1, rhs.l1, c0);
        let (l2, c2) = adc64(self.l2, rhs.l2, c1);
        let (l3, c3) = adc64(self.l3, rhs.l3, c2);
        (U256 { l0, l1, l2, l3 }, c3 != 0)
    }

    /// Full subtraction: the difference modulo `2^256` and whether it
    /// borrowed.
    pub fn sbb(&self, rhs: &U256) -> (r: (U256, bool))
        ensures
            r.1 == (self.value() < rhs.value()),
            r.0.value() == self.value() - rhs.value() + (if r.1 { two_256() } else { 0 }),
    {
        let (l0, b0) = sbb64(self.l0, rhs.l0, 0);
        let (l1, b1) = sbb64(self.l1, rhs.l1, b0);
        let (l2, b2) = sbb64(self.l2, rhs.l2, b1);
        let (l3, b3) = sbb64(self.l3, rhs.l3, b2);
        (U256 { l0, l1, l2, l3 }, b3 != 0)
    }

    /// Whether `self` is the smaller integer.
    pub fn lt(&self, rhs: &U256) -> (r: bool)
        ensures
            r == (self.value() < rhs.value()),
    {
        let (_, borrowed) = self.sbb(rhs);
        borrowed
    }

    /// Whether the two stand for the same integer.
    pub fn eq(&self, rhs: &U256) -> (r: bool)
        ensures
            r == (self.value() == rhs.value()),
    {
        self.l0 == rhs.l0 && self.l1 == rhs.l1 && self.l2 == rhs.l2 && self.l3 == rhs.l3
    }

    /// Whether this is the integer zero.
    pub fn is_zero(&self) -> (r: bool)
        ensures
            r == (self.value() == 0),
    {
        self.l0 == 0 && self.l1 == 0 && self.l2 == 0 && self.l3 == 0
    }

    /// Whether the integer is odd.
    pub fn is_odd(&self) -> (r: bool)
        ensures
            r == (self.value() % 2 == 1),
    {
        self.l0 % 2 == 1
    }
}

/// The product of a limb with a four-limb number, term by term.
pub open spec fn row(x: u64, b: U256) -> int {
    x * b.l0 + 0x1_0000_0000_0000_0000 * (x * b.l1 + 0x1_0000_0000_0000_0000 * (x * b.l2 + 0x1_0000_0000_0000_0000 * (x * b.l3)))
}

/// Multiplying out two four-limb numbers gives one row per limb of the first.
pub proof fn lemma_product_rows(a: U256, b: U256)
    ensures
        a.value() * b.value() == row(a.l0, b) + 0x1_0000_0000_0000_0000 * (row(a.l1, b) + 0x1_0000_0000_0000_0000 * (row(a.l2, b) + 0x1_0000_0000_0000_0000
            * row(a.l3, b))),
{
    let bv = b.value() as int;
    assert(row(a.l0, b) == a.l0 * bv) by (nonlinear_arith)
        requires
            bv == b.l0 + 0x1_0000_0000_0000_0000 * (b.l1 + 0x1_0000_0000_0000_0000 * (b.l2 + 0x1_0000_0000_0000_0000 * b.l3)),
            row(a.l0, b) == a.l0 * b.l0 + 0x1_0000_0000_0000_0000 * (a.l0 * b.l1 + 0x1_0000_0000_0000_0000 * (a.l0 * b.l2 + 0x1_0000_0000_0000_0000 * (a.l0
                * b.l3))),
    ;
    assert(row(a.l1, b) == a.l1 * bv) by (nonlinear_arith)
        requires
            bv == b.l0 + 0x1_0000_0000_0000_0000 * (b.l1 + 0x1_0000_0000_0000_0000 * (b.l2 + 0x1_0000_0000_0000_0000 * b.l3)),
            row(a.l1, b) == a.l1 * b.l0 + 0x1_0000_0000_0000_0000 * (a.l1 * b.l1 + 0x1_0000_0000_0000_0000 * (a.l1 * b.l2 + 0x1_0000_0000_0000_0000 * (a.l1
                * b.l3))),
    ;
    assert(row(a.l2, b) == a.l2 * bv) by (nonlinear_arith)
        requires
            bv == b.l0 + 0x1_0000_0000_0000_0000 * (b.l1 + 0x1_0000_0000_0000_0000 * (b.l2 + 0x1_0000_0000_0000_0000 * b.l3)),
            row(a.l2, b) == a.l2 * b.l0 + 0x1_0000_0000_0000_0000 * (a.l2 * b.l1 + 0x1_0000_0000_0000_0000 * (a.l2 * b.l2 + 0x1_0000_0000_0000_0000 * (a.l2
                * b.l3))),
    ;
    assert(row(a.l3, b) == a.l3 * bv) by (nonlinear_arith)
        requires
            bv == b.l0 + 0x1_0000_0000_0000_0000 * (b.l1 + 0x1_0000_0000_0000_0000 * (b.l2 + 0x1_0000_0000_0000_0000 * b.l3)),
            row(a.l3, b) == a.l3 * b.l0 + 0x1_0000_0000_0000_0000 * (a.l3 * b.l1 + 0x1_0000_0000_0000_0000 * (a.l3 * b.l2 + 0x1_0000_0000_0000_0000 * (a.l3
                * b.l3))),
    ;
    let av = a.value() as int;
    assert(av * bv == a.l0 * bv + 0x1_0000_0000_0000_0000 * (a.l1 * bv + 0x1_0000_0000_0000_0000 * (a.l2 * bv + 0x1_0000_0000_0000_0000 * (a.l3 * bv))))
        by (nonlinear_arith)
        requires
            av == a.l0 + 0x1_0000_0000_0000_0000 * (a.l1 + 0x1_0000_0000_0000_0000 * (a.l2 + 0x1_0000_0000_0000_0000 * a.l3)),
    ;
}

impl U256 {
    /// The full 512-bit product, as its low and its high half.
    pub fn mul_wide(&self, rhs: &U256) -> (r: (U256, U256))
        ensures
            r.0.value() + two_256() * r.1.value() == self.value() * rhs.value(),
    {
        let (a0, c) = mac64(0, self.l0, rhs.l0, 0);
        let (a1, c) = mac64(0, self.l0, rhs.l1, c);
        let (a2, c) = mac64(0, self.l0, rhs.l2, c);
        let (a3, a4) = mac64(0, self.l0, rhs.l3, c);
        assert(a0 + 0x1_0000_0000_0000_0000 * (a1 + 0x1_0000_0000_0000_0000 * (a2 + 0x1_0000_0000_0000_0000 * (a3 + 0x1_0000_0000_0000_0000 * a4))) == row(self.l0, *rhs));

        let (b1, c) = mac64(a1, self.l1, rhs.l0, 0);
        let (b2, c) = mac64(a2, self.l1, rhs.l1, c);
        let (b3, c) = mac64(a3, self.l1, rhs.l2, c);
        let (b4, b5) = mac64(a4, self.l1, rhs.l3, c);
        assert(b1 + 0x1_0000_0000_0000_0000 * (b2 + 0x1_0000_0000_0000_0000 * (b3 + 0x1_0000_0000_0000_0000 * (b4 + 0x1_0000_0000_0000_0000 * b5))) == a1 + 0x1_0000_0000_0000_0000 * (a2 + 0x1_0000_0000_0000_0000 * (a3 + 0x1_0000_0000_0000_0000
            * a4)) + row(self.l1, *rhs));

        let (c2, c) = mac64(b2, self.l2, rhs.l0, 0);
        let (c3, c) = mac64(b3, self.l2, rhs.l1, c);
        let (c4, c) = mac64(b4, self.l2, rhs.l2, c);
        let (c5, c6) = mac64(b5, self.l2, rhs.l3, c);
        assert(c2 + 0x1_0000_0000_0000_0000 * (c3 + 0x1_0000_0000_0000_0000 * (c4 + 0x1_0000_0000_0000_0000 * (c5 + 0x1_0000_0000_0000_0000 * c6))) == b2 + 0x1_0000_0000_0000_0000 * (b3 + 0x1_0000_0000_0000_0000 * (b4 + 0x1_0000_0000_0000_0000
            * b5)) + row(self.l2, *rhs));

        let (d3, c) = mac64(c3, self.l3, rhs.l0, 0);
        let (d4, c) = mac64(c4, self.l3, rhs.l1, c);
        let (d5, c) = mac64(c5, self.l3, rhs.l2, c);
        let (d6, d7) = mac64(c6, self.l3, rhs.l3, c);
        assert(d3 + 0x1_0000_0000_0000_0000 * (d4 + 0x1_0000_0000_0000_0000 * (d5 + 0x1_0000_0000_0000_0000 * (d6 + 0x1_0000_0000_0000_0000 * d7))) == c3 + 0x1_0000_0000_0000_0000 * (c4 + 0x1_0000_0000_0000_0000 * (c5 + 0x1_0000_0000_0000_0000
            * c6)) + row(self.l3, *rhs));

        proof {
            lemma_product_rows(*self, *rhs);
        }
        (U256 { l0: a0, l1: b1, l2: c2, l3: d3 }, U256 { l0: d4, l1: d5, l2: d6, l3: d7 })
    }
}

/// `pow2(256)` is the bound of a [`U256`].
pub proof fn lemma_pow2_256()
    ensures
        pow2(256) == two_256(),
{
    lemma2_to64();
    lemma_pow2_adds(64, 64);
    lemma_pow2_adds(128, 128);
    let half = 340282366920938463463374607431768211456nat;
    assert(pow2(64) == 0x1_0000_0000_0000_0000nat);
    assert(pow2(128) == pow2(64) * pow2(64));
    assert(0x1_0000_0000_0000_0000nat * 0x1_0000_0000_0000_0000nat == half);
    assert(pow2(128) == half);
    assert(pow2(256) == pow2(128) * pow2(128));
    assert(half * half == two_256());
}

/// The number that a byte string stands for, most significant byte first.
pub open spec fn be_nat(s: Seq<u8>) -> nat
    decreases s.len(),
{
    if s.len() == 0 {
        0
    } else {
        256 * be_nat(s.drop_last()) + s.last() as nat
    }
}

/// A string of `n` bytes stands for a number below `2^(8n)`.
pub proof fn lemma_be_nat_bound(s: Seq<u8>)
    ensures
        be_nat(s) < pow2(8 * s.len()),
    decreases s.len(),
{
    lemma2_to64();
    if s.len() > 0 {
        lemma_be_nat_bound(s.drop_last());
        lemma_pow2_adds(8 * s.drop_last().len(), 8);
        assert(8 * s.drop_last().len() + 8 == 8 * s.len());
    }
}

/// Byte strings of one length that stand for the same number are equal.
pub proof fn lemma_be_nat_injective(a: Seq<u8>, b: Seq<u8>)
    requires
        a.len() == b.len(),
        be_nat(a) == be_nat(b),
    ensures
        a == b,
    decreases a.len(),
{
    if a.len() > 0 {
        assert(be_nat(a.drop_last()) == be_nat(b.drop_last()) && a.last() == b.last());
        lemma_be_nat_injective(a.drop_last(), b.drop_last());
        assert(a == a.drop_last().push(a.last()));
        assert(b == b.drop_last().push(b.last()));
    } else {
        assert(a == b);
    }
}

impl U256 {
    /// `self * m + add`, as its low 256 bits and the limb that carries out.
    pub fn mul_small_add(&self, m: u64, add: u64) -> (r: (U256, u64))
        ensures
            r.0.value() + two_256() * r.1 == self.value() * m + add,
    {
        let (l0, c) = mac64(add, self.l0, m, 0);
        let (l1, c) = mac64(0, self.l1, m, c);
        let (l2, c) = mac64(0, self.l2, m, c);
        let (l3, c) = mac64(0, self.l3, m, c);
        proof {
            let v = self.value() as int;
            assert(v * m == self.l0 * m + 0x1_0000_0000_0000_0000 * (self.l1 * m + 0x1_0000_0000_0000_0000 * (self.l2 * m + 0x1_0000_0000_0000_0000 * (self.l3
                * m)))) by (nonlinear_arith)
                requires
                    v == self.l0 + 0x1_0000_0000_0000_0000 * (self.l1 + 0x1_0000_0000_0000_0000 * (self.l2 + 0x1_0000_0000_0000_0000 * self.l3)),
            ;
        }
        (U256 { l0, l1, l2, l3 }, c)
    }

    /// Reads 32 bytes, most significant first.
    pub fn from_be_slice(bytes: &[u8]) -> (r: U256)
        requires
            bytes@.len() == 32,
        ensures
            r.value() == be_nat(bytes@),
    {
        let mut acc = U256::zero();
        let mut i: usize = 0;
        while i < 32
            invariant
                i <= 32,
                bytes@.len() == 32,
                acc.value() == be_nat(bytes@.take(i as int)),
            decreases 32 - i,
        {
            let (next, carry) = acc.mul_small_add(256, bytes[i] as u64);
            proof {
                let head = bytes@.take(i + 1);
                assert(head.drop_last() == bytes@.take(i as int));
                lemma_be_nat_bound(head);
                lemma_pow2_256();
                if 8 * head.len() < 256 {
                    lemma_pow2_strictly_increases(8 * head.len(), 256);
                }
                assert(carry == 0) by (nonlinear_arith)
                    requires
                        next.value() + two_256() * carry < two_256(),
                ;
            }
            acc = next;
            i += 1;
        }
        assert(bytes@.take(32) == bytes@);
        acc
    }

    /// Reads a 32-byte array, most significant byte first.
    pub fn from_be_bytes(bytes: &[u8; 32]) -> (r: U256)
        ensures
            r.value() == be_nat(bytes@),
    {
        U256::from_be_slice(bytes.as_slice())
    }
}

/// Appends the eight bytes of a limb, most significant first.
fn push_limb(out: &mut Vec<u8>, limb: u64)
    ensures
        final(out)@.len() == old(out)@.len() + 8,
        be_nat(final(out)@) == 0x1_0000_0000_0000_0000 * be_nat(old(out)@) + limb,
{
    let q1 = limb / 256;
    let q2 = q1 / 256;
    let q3 = q2 / 256;
    let q4 = q3 / 256;
    let q5 = q4 / 256;
    let q6 = q5 / 256;
    let q7 = q6 / 256;
    let b0 = (limb % 256) as u8;
    let b1 = (q1 % 256) as u8;
    let b2 = (q2 % 256) as u8;
    let b3 = (q3 % 256) as u8;
    let b4 = (q4 % 256) as u8;
    let b5 = (q5 % 256) as u8;
    let b6 = (q6 % 256) as u8;
    let b7 = q7 as u8;
    assert(limb == b0 + 256 * (b1 + 256 * (b2 + 256 * (b3 + 256 * (b4 + 256 * (b5 + 256 * (b6
        + 256 * b7)))))));
    let ghost s0 = out@;
    out.push(b7);
    let ghost s1 = out@;
    out.push(b6);
    let ghost s2 = out@;
    out.push(b5);
    let ghost s3 = out@;
    out.push(b4);
    let ghost s4 = out@;
    out.push(b3);
    let ghost s5 = out@;
    out.push(b2);
    let ghost s6 = out@;
    out.push(b1);
    let ghost s7 = out@;
    out.push(b0);
    proof {
        assert(s1.drop_last() == s0);
        assert(s2.drop_last() == s1);
        assert(s3.drop_last() == s2);
        assert(s4.drop_last() == s3);
        assert(s5.drop_last() == s4);
        assert(s6.drop_last() == s5);
        assert(s7.drop_last() == s6);
        assert(out@.drop_last() == s7);
        assert(be_nat(s1) == 256 * be_nat(s0) + b7);
        assert(be_nat(s2) == 256 * be_nat(s1) + b6);
        assert(be_nat(s3) == 256 * be_nat(s2) + b5);
        assert(be_nat(s4) == 256 * be_nat(s3) + b4);
        assert(be_nat(s5) == 256 * be_nat(s4) + b3);
        assert(be_nat(s6) == 256 * be_nat(s5) + b2);
        assert(be_nat(s7) == 256 * be_nat(s6) + b1);
        assert(be_nat(out@) == 256 * be_nat(s7) + b0);
    }
}

impl U256 {
    /// The 32 bytes of this integer, most significant first.
    pub fn to_be_bytes(&self) -> (out: Vec<u8>)
        ensures
            out@.len() == 32,
            be_nat(out@) == self.value(),
    {
        let mut out: Vec<u8> = Vec::new();
        assert(be_nat(out@) == 0);
        push_limb(&mut out, self.l3);
        push_limb(&mut out, self.l2);
        push_limb(&mut out, self.l1);
        push_limb(&mut out, self.l0);
        out
    }
}

} // verus!
