//! Arithmetic modulo a number just below `2^256`.

use crate::uint::{lemma_pow2_256, two_256, U256};
use vstd::arithmetic::div_mod::{
    lemma_mod_multiples_vanish, lemma_mul_mod_noop_general, lemma_mul_mod_noop_left,
    lemma_mul_mod_noop_right, lemma_small_mod,
};
use vstd::arithmetic::power2::{lemma2_to64, lemma_pow2_unfold, pow2};
use vstd::prelude::*;

verus! {

/// `(a + b) mod m`.
pub open spec fn add_mod(a: nat, b: nat, m: nat) -> nat {
    (a + b) % m
}

/// `(a - b) mod m`, the representative in `0 .. m`.
pub open spec fn sub_mod(a: nat, b: nat, m: nat) -> nat {
    ((a as int - b as int) % (m as int)) as nat
}

/// `(a * b) mod m`.
pub open spec fn mul_mod(a: nat, b: nat, m: nat) -> nat {
    (a * b) % m
}

/// `a^e mod m`.
pub open spec fn pow_mod(a: nat, e: nat, m: nat) -> nat
    decreases e,
{
    if e == 0 {
        1nat % m
    } else {
        (a * pow_mod(a, (e - 1) as nat, m)) % m
    }
}

/// Powers modulo `m` stay below `m`.
pub proof fn lemma_pow_mod_bound(a: nat, e: nat, m: nat)
    requires
        m > 0,
    ensures
        pow_mod(a, e, m) < m,
{
}

/// `a^(j + k) = a^j * a^k (mod m)`.
pub proof fn lemma_pow_mod_add(a: nat, j: nat, k: nat, m: nat)
    requires
        m > 0,
    ensures
        pow_mod(a, j + k, m) == (pow_mod(a, j, m) * pow_mod(a, k, m)) % m,
    decreases j,
{
    let pk = pow_mod(a, k, m);
    lemma_pow_mod_bound(a, k, m);
    if j == 0 {
        lemma_small_mod(pk, m);
        lemma_mul_mod_noop_left(1, pk as int, m as int);
        assert(1 * pk == pk);
    } else {
        let pj1 = pow_mod(a, (j - 1) as nat, m);
        lemma_pow_mod_add(a, (j - 1) as nat, k, m);
        assert(pow_mod(a, j + k, m) == (a * pow_mod(a, (j + k - 1) as nat, m)) % m);
        assert(pow_mod(a, (j - 1) as nat + k, m) == (pj1 * pk) % m);
        lemma_mul_mod_noop_right(a as int, (pj1 * pk) as int, m as int);
        lemma_mul_mod_noop_left((a * pj1) as int, pk as int, m as int);
        assert(a * (pj1 * pk) == (a * pj1) * pk) by (nonlinear_arith);
    }
}

/// One step of reading a 256-bit number from its top bit down: doubling the
/// unread part `rem` moves its top bit `bit` into the part already read.
pub proof fn lemma_read_bit(e: nat, read: nat, rem: nat, doubled: nat, bit: bool, i: nat)
    requires
        read * two_256() + rem == e * pow2(i),
        doubled + (if bit { two_256() } else { 0 }) == 2 * rem,
    ensures
        (2 * read + (if bit { 1nat } else { 0 })) * two_256() + doubled == e * pow2(i + 1),
{
    lemma_pow2_unfold(i + 1);
    assert(e * (2 * pow2(i)) == 2 * (e * pow2(i))) by (nonlinear_arith);
}

/// Once all 256 bits are read, the part read is the whole number.
pub proof fn lemma_read_all(e: nat, read: nat, rem: nat)
    requires
        read * two_256() + rem == e * pow2(256),
        rem < two_256(),
        e < two_256(),
    ensures
        read == e,
        rem == 0,
{
    lemma_pow2_256();
    let t = two_256() as int;
    assert(read == e && rem == 0) by (nonlinear_arith)
        requires
            read * t + rem == e * t,
            0 <= rem < t,
            t > 0,
    ;
}

/// A modulus `m` together with `c = 2^256 - m`.
#[derive(Clone, Copy, Debug)]
pub struct Modulus {
    pub m: U256,
    pub c: U256,
}

impl Modulus {
    pub open spec fn wf(self) -> bool {
        &&& self.m.value() + self.c.value() == two_256()
        &&& self.m.value() > 1
    }

    /// The modulus as an integer.
    pub open spec fn value(self) -> nat {
        self.m.value()
    }

    /// Reduces a value below `2^256`.
    pub fn reduce(&self, a: &U256) -> (r: U256)
        requires
            self.wf(),
        ensures
            r.value() == a.value() % self.value(),
    {
        let mut s = *a;
        while !s.lt(&self.m)
            invariant
                self.wf(),
                s.value() % self.value() == a.value() % self.value(),
            decreases s.value(),
        {
            let (d, _) = s.sbb(&self.m);
            proof {
                lemma_mod_multiples_vanish(1, d.value() as int, self.value() as int);
            }
            s = d;
        }
        proof {
            lemma_small_mod(s.value(), self.value());
        }
        s
    }

    /// Reduces the 512-bit value `lo + 2^256 * hi`.
    pub fn reduce_wide(&self, lo: &U256, hi: &U256) -> (r: U256)
        requires
            self.wf(),
        ensures
            r.value() == (lo.value() + two_256() * hi.value()) % self.value(),
    {
        let mut s = *lo;
        let mut t = *hi;
        while !t.is_zero()
            invariant
                self.wf(),
                (s.value() + two_256() * t.value()) % self.value() == (lo.value() + two_256()
                    * hi.value()) % self.value(),
            decreases s.value() + two_256() * t.value(),
        {
            let (l, h) = t.mul_wide(&self.c);
            let (s2, carry) = s.adc(&l);
            let one = U256::from_u64(if carry { 1 } else { 0 });
            let (t2, over) = h.adc(&one);
            proof {
                let tv = t.value() as int;
                let cv = self.c.value() as int;
                let mv = self.value() as int;
                let big = two_256() as int;
                let next = s2.value() + big * t2.value() + (if over { big * big } else { 0 });
                assert(next == s.value() + tv * cv);
                assert(tv * cv <= (big - 1) * (big - 1)) by (nonlinear_arith)
                    requires
                        0 <= tv <= big - 1,
                        0 <= cv <= big - 1,
                ;
                assert(!over);
                assert(s.value() + big * tv == mv * tv + next) by (nonlinear_arith)
                    requires
                        next == s.value() + tv * cv,
                        mv + cv == big,
                ;
                lemma_mod_multiples_vanish(tv, next, mv);
                assert(mv * tv >= 1) by (nonlinear_arith)
                    requires
                        mv >= 1,
                        tv >= 1,
                ;
            }
            s = s2;
            t = t2;
        }
        self.reduce(&s)
    }

    /// Modular addition of two reduced values.
    pub fn add(&self, a: &U256, b: &U256) -> (r: U256)
        requires
            self.wf(),
            a.value() < self.value(),
            b.value() < self.value(),
        ensures
            r.value() == add_mod(a.value(), b.value(), self.value()),
    {
        let (s, carry) = a.adc(b);
        if carry || !s.lt(&self.m) {
            let (d, _) = s.sbb(&self.m);
            proof {
                lemma_mod_multiples_vanish(1, d.value() as int, self.value() as int);
                lemma_small_mod(d.value(), self.value());
            }
            d
        } else {
            proof {
                lemma_small_mod(s.value(), self.value());
            }
            s
        }
    }

    /// Modular subtraction of two reduced values.
    pub fn sub(&self, a: &U256, b: &U256) -> (r: U256)
        requires
            self.wf(),
            a.value() < self.value(),
            b.value() < self.value(),
        ensures
            r.value() == sub_mod(a.value(), b.value(), self.value()),
    {
        let (d, borrowed) = a.sbb(b);
        if borrowed {
            let (s, _) = d.adc(&self.m);
            proof {
                lemma_mod_multiples_vanish(-1, s.value() as int, self.value() as int);
                lemma_small_mod(s.value(), self.value());
            }
            s
        } else {
            proof {
                lemma_small_mod(d.value(), self.value());
            }
            d
        }
    }

    /// Modular multiplication; the factors need not be reduced.
    pub fn mul(&self, a: &U256, b: &U256) -> (r: U256)
        requires
            self.wf(),
        ensures
            r.value() == mul_mod(a.value(), b.value(), self.value()),
    {
        let (lo, hi) = a.mul_wide(b);
        self.reduce_wide(&lo, &hi)
    }

    /// Modular exponentiation, reading the exponent from its top bit down.
    pub fn pow(&self, a: &U256, e: &U256) -> (r: U256)
        requires
            self.wf(),
        ensures
            r.value() == pow_mod(a.value(), e.value(), self.value()),
    {
        let mut acc = U256::from_u64(1);
        let mut rem = *e;
        let ghost mut read: nat = 0;
        let mut i: usize = 0;
        proof {
            lemma_small_mod(1, self.value());
            lemma2_to64();
        }
        while i < 256
            invariant
                self.wf(),
                i <= 256,
                read * two_256() + rem.value() == e.value() * pow2(i as nat),
                acc.value() == pow_mod(a.value(), read, self.value()),
            decreases 256 - i,
        {
            let (doubled, bit) = rem.adc(&rem);
            let squared = self.mul(&acc, &acc);
            proof {
                lemma_read_bit(e.value(), read, rem.value(), doubled.value(), bit, i as nat);
                lemma_pow_mod_add(a.value(), read, read, self.value());
            }
            if bit {
                acc = self.mul(&squared, a);
                proof {
                    assert(squared.value() * a.value() == a.value() * squared.value())
                        by (nonlinear_arith);
                    read = 2 * read + 1;
                }
            } else {
                acc = squared;
                proof {
                    read = 2 * read;
                }
            }
            rem = doubled;
            i += 1;
        }
        proof {
            lemma_read_all(e.value(), read, rem.value());
        }
        acc
    }
}

} // verus!
