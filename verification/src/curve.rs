//! The secp256k1 curve `y^2 = x^3 + 7` over the field of `p = 2^256 - 2^32 - 977`
//! elements, with its group law in affine coordinates.

use crate::modular::{
    add_mod, lemma_pow_mod_bound, lemma_read_all, lemma_read_bit, mul_mod, pow_mod, sub_mod,
    Modulus,
};
use crate::uint::{limbs4, two_256, U256};
use vstd::arithmetic::div_mod::{
    lemma_fundamental_div_mod_converse, lemma_mod_multiples_vanish, lemma_small_mod,
};
use vstd::arithmetic::power2::{lemma2_to64, pow2};
use vstd::prelude::*;

verus! {

/// The field modulus `p = 2^256 - 2^32 - 977`.
pub open spec fn field_modulus() -> nat {
    (two_256() - 0x1_0000_0000 - 977) as nat
}

/// The inverse of a nonzero field element, `a^(p - 2)`.
pub open spec fn field_inv(a: nat) -> nat {
    pow_mod(a, (field_modulus() - 2) as nat, field_modulus())
}

/// Whether `(x, y)` is a pair of field elements that satisfies the curve
/// equation.
pub open spec fn on_curve(x: nat, y: nat) -> bool {
    let p = field_modulus();
    &&& x < p
    &&& y < p
    &&& mul_mod(y, y, p) == add_mod(mul_mod(mul_mod(x, x, p), x, p), 7, p)
}

/// The base point lies on the curve.
pub proof fn lemma_generator_on_curve()
    ensures
        on_curve(generator().0, generator().1),
{
    let p = field_modulus();
    let gx = generator().0;
    let gy = generator().1;
    assert(p == 115792089237316195423570985008687907853269984665640564039457584007908834671663nat);
    assert(gx == 55066263022277343669578718895168534326250603453777594175500187360389116729240nat);
    assert(gy == 32670510020758816978083085130507043184471273380659243275938904335757337482424nat);
    assert(gx * gx == 3032293323238629131397093708741358902059848828670291900490749632219017966501037851199852273530008094362088328117359813331037184493212192641774435470977600nat);
    assert(3032293323238629131397093708741358902059848828670291900490749632219017966501037851199852273530008094362088328117359813331037184493212192641774435470977600nat == 26187396247976283472853352193639785130011348079443841416178081230925261213881nat * p + 60300556597753154781239923047219078515410877540607532238537983597388018023497nat);
    assert(mul_mod(gx, gx, p) == 60300556597753154781239923047219078515410877540607532238537983597388018023497nat) by {
        lemma_fundamental_div_mod_converse(3032293323238629131397093708741358902059848828670291900490749632219017966501037851199852273530008094362088328117359813331037184493212192641774435470977600int, p as int, 26187396247976283472853352193639785130011348079443841416178081230925261213881int, 60300556597753154781239923047219078515410877540607532238537983597388018023497int);
    };
    assert(60300556597753154781239923047219078515410877540607532238537983597388018023497nat * gx == 3320526310001596653058494562400858854709779906332499821777365027902056456123837065907409329354376562306818774666939633867475851617700776978389322106952280nat);
    assert(3320526310001596653058494562400858854709779906332499821777365027902056456123837065907409329354376562306818774666939633867475851617700776978389322106952280nat == 28676624904799576878370641386091001092335193693854522746901794248340229297955nat * p + 32748224938747404814623910738487752935528512903530129802856995983256684603115nat);
    assert(mul_mod(60300556597753154781239923047219078515410877540607532238537983597388018023497nat, gx, p) == 32748224938747404814623910738487752935528512903530129802856995983256684603115nat) by {
        lemma_fundamental_div_mod_converse(3320526310001596653058494562400858854709779906332499821777365027902056456123837065907409329354376562306818774666939633867475851617700776978389322106952280int, p as int, 28676624904799576878370641386091001092335193693854522746901794248340229297955int, 32748224938747404814623910738487752935528512903530129802856995983256684603115int);
    };
    assert(add_mod(32748224938747404814623910738487752935528512903530129802856995983256684603115nat, 7, p) == 32748224938747404814623910738487752935528512903530129802856995983256684603122nat) by {
        lemma_small_mod(32748224938747404814623910738487752935528512903530129802856995983256684603122nat, p);
    };
    assert(gy * gy == 1067362225016502275772194909503713869376985974142797512091458491530306631211206623652669436957676354343630306950631573032330832513385319878364322508915776nat);
    assert(1067362225016502275772194909503713869376985974142797512091458491530306631211206623652669436957676354343630306950631573032330832513385319878364322508915776nat == 9217920084583157935602994580951900810186344190718383666107426471107247357458nat * p + 32748224938747404814623910738487752935528512903530129802856995983256684603122nat);
    assert(mul_mod(gy, gy, p) == 32748224938747404814623910738487752935528512903530129802856995983256684603122nat) by {
        lemma_fundamental_div_mod_converse(1067362225016502275772194909503713869376985974142797512091458491530306631211206623652669436957676354343630306950631573032330832513385319878364322508915776int, p as int, 9217920084583157935602994580951900810186344190718383666107426471107247357458int, 32748224938747404814623910738487752935528512903530129802856995983256684603122int);
    };
}

/// The right-hand side of the curve equation, `x^3 + 7`.
pub open spec fn curve_rhs(x: nat) -> nat {
    let p = field_modulus();
    add_mod(mul_mod(mul_mod(x, x, p), x, p), 7, p)
}

/// The candidate square root `a^((p + 1) / 4)`, which is a root of `a`
/// whenever `a` has one.
pub open spec fn sqrt_candidate(a: nat) -> nat {
    pow_mod(a, (field_modulus() + 1) / 4, field_modulus())
}

/// The point with abscissa `x` whose ordinate has the given parity, if the
/// candidate root of `x^3 + 7` or its negative gives a point on the curve.
pub open spec fn decompress(x: nat, y_is_odd: bool) -> Option<(nat, nat)> {
    let c = sqrt_candidate(curve_rhs(x));
    let y = if (c % 2 == 1) == y_is_odd {
        c
    } else {
        sub_mod(0, c, field_modulus())
    };
    if on_curve(x, y) {
        Some((x, y))
    } else {
        None
    }
}

/// A field element and its negative have the same square.
pub proof fn lemma_negative_squares_alike(c: nat)
    requires
        c < field_modulus(),
    ensures
        sub_mod(0, c, field_modulus()) < field_modulus(),
        mul_mod(sub_mod(0, c, field_modulus()), sub_mod(0, c, field_modulus()), field_modulus())
            == mul_mod(c, c, field_modulus()),
{
    let p = field_modulus() as int;
    let c = c as int;
    if c == 0 {
        lemma_small_mod(0, p as nat);
    } else {
        lemma_mod_multiples_vanish(-1, p - c, p);
        lemma_small_mod((p - c) as nat, p as nat);
        assert((p - c) * (p - c) == p * (p - 2 * c) + c * c) by (nonlinear_arith);
        lemma_mod_multiples_vanish(p - 2 * c, c * c, p);
    }
}

/// Decompression succeeds exactly where the abscissa is a field element and
/// the candidate root squares to `x^3 + 7`.
pub proof fn lemma_decompress_succeeds(x: nat, y_is_odd: bool)
    ensures
        decompress(x, y_is_odd).is_some() <==> x < field_modulus() && mul_mod(
            sqrt_candidate(curve_rhs(x)),
            sqrt_candidate(curve_rhs(x)),
            field_modulus(),
        ) == curve_rhs(x),
{
    let c = sqrt_candidate(curve_rhs(x));
    lemma_pow_mod_bound(curve_rhs(x), (field_modulus() + 1) / 4, field_modulus());
    lemma_negative_squares_alike(c);
}

/// The third point of the line with slope `lambda` through `(x1, y1)` and a
/// point with abscissa `x2`, reflected in the x-axis.
pub open spec fn chord(x1: nat, y1: nat, x2: nat, lambda: nat) -> (nat, nat) {
    let p = field_modulus();
    let x3 = sub_mod(sub_mod(mul_mod(lambda, lambda, p), x1, p), x2, p);
    let y3 = sub_mod(mul_mod(lambda, sub_mod(x1, x3, p), p), y1, p);
    (x3, y3)
}

/// Doubling; `None` is the point at infinity.
pub open spec fn ec_double(a: Option<(nat, nat)>) -> Option<(nat, nat)> {
    let p = field_modulus();
    match a {
        None => None,
        Some((x, y)) => if y == 0 {
            None
        } else {
            let lambda = mul_mod(
                mul_mod(3, mul_mod(x, x, p), p),
                field_inv(mul_mod(2, y, p)),
                p,
            );
            Some(chord(x, y, x, lambda))
        },
    }
}

/// The group law; `None` is the point at infinity, the neutral element.
pub open spec fn ec_add(a: Option<(nat, nat)>, b: Option<(nat, nat)>) -> Option<(nat, nat)> {
    let p = field_modulus();
    match (a, b) {
        (None, _) => b,
        (_, None) => a,
        (Some((x1, y1)), Some((x2, y2))) => if x1 == x2 {
            if y1 == y2 {
                ec_double(a)
            } else {
                None
            }
        } else {
            let lambda = mul_mod(sub_mod(y2, y1, p), field_inv(sub_mod(x2, x1, p)), p);
            Some(chord(x1, y1, x2, lambda))
        },
    }
}

/// The multiple `k * a`, by the binary expansion of `k`: `k * a` is twice
/// `(k / 2) * a`, plus `a` where `k` is odd.
pub open spec fn ec_mul(k: nat, a: Option<(nat, nat)>) -> Option<(nat, nat)>
    decreases k,
{
    if k == 0 {
        None
    } else {
        let twice = ec_double(ec_mul(k / 2, a));
        if k % 2 == 1 {
            ec_add(twice, a)
        } else {
            twice
        }
    }
}

/// The base point `G`.
pub open spec fn generator() -> (nat, nat) {
    (
        limbs4(
            0x59F2_815B_16F8_1798,
            0x029B_FCDB_2DCE_28D9,
            0x55A0_6295_CE87_0B07,
            0x79BE_667E_F9DC_BBAC,
        ),
        limbs4(
            0x9C47_D08F_FB10_D4B8,
            0xFD17_B448_A685_5419,
            0x5DA4_FBFC_0E11_08A8,
            0x483A_DA77_26A3_C465,
        ),
    )
}

/// The field as a modulus to compute with.
pub fn field() -> (f: Modulus)
    ensures
        f.wf(),
        f.value() == field_modulus(),
{
    Modulus {
        m: U256 {
            l0: 0xFFFF_FFFE_FFFF_FC2F,
            l1: 0xFFFF_FFFF_FFFF_FFFF,
            l2: 0xFFFF_FFFF_FFFF_FFFF,
            l3: 0xFFFF_FFFF_FFFF_FFFF,
        },
        c: U256 { l0: 0x1_0000_03D1, l1: 0, l2: 0, l3: 0 },
    }
}

/// Inverts a field element by raising it to the power `p - 2`.
pub fn invert(a: &U256) -> (r: U256)
    ensures
        r.value() == field_inv(a.value()),
        r.value() < field_modulus(),
{
    let f = field();
    let e = U256 {
        l0: 0xFFFF_FFFE_FFFF_FC2D,
        l1: 0xFFFF_FFFF_FFFF_FFFF,
        l2: 0xFFFF_FFFF_FFFF_FFFF,
        l3: 0xFFFF_FFFF_FFFF_FFFF,
    };
    proof {
        lemma_pow_mod_bound(a.value(), e.value(), field_modulus());
    }
    f.pow(a, &e)
}

/// A finite point in affine coordinates.
#[derive(Clone, Copy, Debug)]
pub struct AffinePoint {
    pub(crate) x: U256,
    pub(crate) y: U256,
}

impl AffinePoint {
    /// The coordinates as integers.
    pub closed spec fn view(self) -> (nat, nat) {
        (self.x.value(), self.y.value())
    }

    /// Both coordinates are reduced field elements.
    pub open spec fn wf(self) -> bool {
        self@.0 < field_modulus() && self@.1 < field_modulus()
    }

    /// The point lies on the curve.
    pub open spec fn is_on_curve(self) -> bool {
        on_curve(self@.0, self@.1)
    }

    /// The abscissa.
    pub fn x(&self) -> (x: U256)
        ensures
            x.value() == self@.0,
    {
        self.x
    }

    /// The ordinate.
    pub fn y(&self) -> (y: U256)
        ensures
            y.value() == self@.1,
    {
        self.y
    }

    /// The point with the given coordinates, if they are field elements
    /// that satisfy the curve equation.
    pub fn from_coordinates(x: &U256, y: &U256) -> (r: Option<AffinePoint>)
        ensures
            r.is_some() == on_curve(x.value(), y.value()),
            r.is_some() ==> r.unwrap()@ == (x.value(), y.value()),
    {
        if AffinePoint::check(x, y) {
            Some(AffinePoint { x: *x, y: *y })
        } else {
            None
        }
    }

    /// The point with abscissa `x` and an ordinate of the given parity.
    pub fn decompress(x: &U256, y_is_odd: bool) -> (r: Option<AffinePoint>)
        ensures
            r.is_some() == decompress(x.value(), y_is_odd).is_some(),
            r.is_some() ==> Some(r.unwrap()@) == decompress(x.value(), y_is_odd)
                && r.unwrap().is_on_curve(),
    {
        let f = field();
        let rhs = f.add(&f.mul(&f.mul(x, x), x), &U256::from_u64(7));
        let e = U256 {
            l0: 0xFFFF_FFFF_BFFF_FF0C,
            l1: 0xFFFF_FFFF_FFFF_FFFF,
            l2: 0xFFFF_FFFF_FFFF_FFFF,
            l3: 0x3FFF_FFFF_FFFF_FFFF,
        };
        assert(e.value() == (field_modulus() + 1) / 4);
        let c = f.pow(&rhs, &e);
        let y = if c.is_odd() == y_is_odd {
            c
        } else {
            f.sub(&U256::zero(), &c)
        };
        AffinePoint::from_coordinates(x, &y)
    }

    /// The base point `G`.
    pub fn generator() -> (g: AffinePoint)
        ensures
            g@ == generator(),
            g.is_on_curve(),
    {
        proof {
            lemma_generator_on_curve();
        }
        AffinePoint {
            x: U256 {
                l0: 0x59F2_815B_16F8_1798,
                l1: 0x029B_FCDB_2DCE_28D9,
                l2: 0x55A0_6295_CE87_0B07,
                l3: 0x79BE_667E_F9DC_BBAC,
            },
            y: U256 {
                l0: 0x9C47_D08F_FB10_D4B8,
                l1: 0xFD17_B448_A685_5419,
                l2: 0x5DA4_FBFC_0E11_08A8,
                l3: 0x483A_DA77_26A3_C465,
            },
        }
    }

    /// Tests the curve equation on a pair of integers below `2^256`.
    fn check(x: &U256, y: &U256) -> (r: bool)
        ensures
            r == on_curve(x.value(), y.value()),
    {
        let f = field();
        if !x.lt(&f.m) || !y.lt(&f.m) {
            return false;
        }
        let yy = f.mul(y, y);
        let xx = f.mul(x, x);
        let xxx = f.mul(&xx, x);
        let rhs = f.add(&xxx, &U256::from_u64(7));
        yy.eq(&rhs)
    }

    /// The third point of the line with slope `lambda`, as [`chord`] has it.
    fn chord(&self, x2: &U256, lambda: &U256) -> (r: AffinePoint)
        requires
            self.wf(),
            x2.value() < field_modulus(),
        ensures
            r@ == chord(self.x.value(), self.y.value(), x2.value(), lambda.value()),
            r.wf(),
    {
        let f = field();
        let ll = f.mul(lambda, lambda);
        let x3 = f.sub(&f.sub(&ll, &self.x), x2);
        let y3 = f.sub(&f.mul(lambda, &f.sub(&self.x, &x3)), &self.y);
        AffinePoint { x: x3, y: y3 }
    }
}

/// A point of the group: a finite point or the point at infinity.
#[derive(Clone, Copy, Debug)]
pub enum Point {
    Identity,
    Finite(AffinePoint),
}

impl Point {
    /// `None` for the point at infinity, else the coordinates.
    pub open spec fn view(self) -> Option<(nat, nat)> {
        match self {
            Point::Identity => None,
            Point::Finite(a) => Some(a@),
        }
    }

    /// The coordinates of a finite point are reduced field elements.
    pub open spec fn wf(self) -> bool {
        match self {
            Point::Identity => true,
            Point::Finite(a) => a.wf(),
        }
    }

    /// The affine form of a finite point; the point at infinity has none.
    pub fn to_affine(&self) -> (r: Option<AffinePoint>)
        ensures
            match r {
                Some(a) => self@ == Some(a@) && *self == Point::Finite(a),
                None => self@.is_none(),
            },
    {
        match self {
            Point::Identity => None,
            Point::Finite(a) => Some(*a),
        }
    }

    /// Doubles a point.
    pub fn double(&self) -> (r: Point)
        requires
            self.wf(),
        ensures
            r@ == ec_double(self@),
            r.wf(),
    {
        match self {
            Point::Identity => Point::Identity,
            Point::Finite(a) => {
                if a.y.is_zero() {
                    Point::Identity
                } else {
                    let f = field();
                    let xx = f.mul(&a.x, &a.x);
                    let num = f.mul(&U256::from_u64(3), &xx);
                    let den = f.mul(&U256::from_u64(2), &a.y);
                    let lambda = f.mul(&num, &invert(&den));
                    Point::Finite(a.chord(&a.x, &lambda))
                }
            },
        }
    }

    /// Adds two points.
    pub fn add(&self, other: &Point) -> (r: Point)
        requires
            self.wf(),
            other.wf(),
        ensures
            r@ == ec_add(self@, other@),
            r.wf(),
    {
        match (self, other) {
            (Point::Identity, _) => *other,
            (_, Point::Identity) => *self,
            (Point::Finite(a), Point::Finite(b)) => {
                if a.x.eq(&b.x) {
                    if a.y.eq(&b.y) {
                        self.double()
                    } else {
                        Point::Identity
                    }
                } else {
                    let f = field();
                    let num = f.sub(&b.y, &a.y);
                    let den = f.sub(&b.x, &a.x);
                    let lambda = f.mul(&num, &invert(&den));
                    Point::Finite(a.chord(&b.x, &lambda))
                }
            },
        }
    }

    /// The multiple `k * self`, reading `k` from its top bit down.
    pub fn mul(&self, k: &U256) -> (r: Point)
        requires
            self.wf(),
        ensures
            r@ == ec_mul(k.value(), self@),
            r.wf(),
    {
        let mut acc = Point::Identity;
        let mut rem = *k;
        let ghost mut read: nat = 0;
        let mut i: usize = 0;
        proof {
            lemma2_to64();
        }
        while i < 256
            invariant
                self.wf(),
                acc.wf(),
                i <= 256,
                read * two_256() + rem.value() == k.value() * pow2(i as nat),
                acc@ == ec_mul(read, self@),
            decreases 256 - i,
        {
            let (doubled, bit) = rem.adc(&rem);
            let twice = acc.double();
            proof {
                lemma_read_bit(k.value(), read, rem.value(), doubled.value(), bit, i as nat);
            }
            if bit {
                acc = twice.add(self);
                proof {
                    read = 2 * read + 1;
                }
            } else {
                acc = twice;
                proof {
                    read = 2 * read;
                }
            }
            rem = doubled;
            i += 1;
        }
        proof {
            lemma_read_all(k.value(), read, rem.value());
        }
        acc
    }
}

} // verus!
