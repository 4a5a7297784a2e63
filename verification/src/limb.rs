//! Single-limb carry arithmetic.
//!
//! The three primitives come from `elliptic_curve::util`. Their contracts
//! below are taken on trust, and all wider arithmetic in this crate is proved
//! on top of them.

use vstd::prelude::*;

verus! {

/// The borrow that `sbb64` reads from an incoming borrow word: its top bit.
pub open spec fn borrow_bit(borrow: u64) -> int {
    if borrow >= 0x8000_0000_0000_0000 {
        1
    } else {
        0
    }
}

/// `elliptic_curve::util::adc64` adds two limbs and a carry word in 128-bit
/// arithmetic and returns the low and the high 64 bits of the sum.
pub assume_specification[ elliptic_curve::util::adc64 ](a: u64, b: u64, carry: u64) -> (r: (
    u64,
    u64,
))
    ensures
        r.0 + 0x1_0000_0000_0000_0000 * r.1 == a + b + carry,
;

/// `elliptic_curve::util::sbb64` subtracts from `a` the limb `b` and the top
/// bit of `borrow`, wrapping in 128-bit arithmetic, and returns the low 64
/// bits with a borrow word that is zero when nothing was borrowed and all
/// ones otherwise.
pub assume_specification[ elliptic_curve::util::sbb64 ](a: u64, b: u64, borrow: u64) -> (r: (
    u64,
    u64,
))
    ensures
        a >= b + borrow_bit(borrow) ==> r.0 == a - b - borrow_bit(borrow) && r.1 == 0,
        a < b + borrow_bit(borrow) ==> r.0 == a - b - borrow_bit(borrow)
            + 0x1_0000_0000_0000_0000 && r.1 == 0xffff_ffff_ffff_ffff,
;

/// `elliptic_curve::util::mac64` computes `a + b * c + carry` in 128-bit
/// arithmetic, where it cannot overflow, and returns the low and the high 64
/// bits.
pub assume_specification[ elliptic_curve::util::mac64 ](a: u64, b: u64, c: u64, carry: u64) -> (r:
    (u64, u64))
    ensures
        r.0 + 0x1_0000_0000_0000_0000 * r.1 == a + b * c + carry,
;

} // verus!
