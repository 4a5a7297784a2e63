//! The SEC1 encoding of a curve point: a tag byte, then one or two field
//! elements of 32 bytes each.

use crate::error::Error;
use crate::uint::{be_nat, U256};
use vstd::prelude::*;
use vstd::slice::slice_subrange;

verus! {

/// The tag byte of an encoded point.
#[derive(Clone, Copy, Debug, PartialEq, Eq, Structural)]
pub enum PointTag {
    /// `0x02`: only `x` follows, and `y` is even.
    CompressedEvenY,
    /// `0x03`: only `x` follows, and `y` is odd.
    CompressedOddY,
    /// `0x04`: `x` and `y` follow.
    Uncompressed,
}

/// The tag that a byte stands for, if any.
pub open spec fn tag_of(byte: u8) -> Option<PointTag> {
    if byte == 2 {
        Some(PointTag::CompressedEvenY)
    } else if byte == 3 {
        Some(PointTag::CompressedOddY)
    } else if byte == 4 {
        Some(PointTag::Uncompressed)
    } else {
        None
    }
}

/// The length of an encoding that begins with the given tag, tag byte
/// included.
pub open spec fn encoding_len(tag: PointTag, field_size: nat) -> nat {
    match tag {
        PointTag::Uncompressed => 1 + 2 * field_size,
        _ => 1 + field_size,
    }
}

/// Calls `elliptic_curve::sec1::Tag::from_u8`, which maps the bytes 2, 3
/// and 4 to the three tags in this order and fails on every other byte.
#[verifier::external_body]
fn parse_tag(byte: u8) -> (r: Option<PointTag>)
    ensures
        r == tag_of(byte),
{
    match elliptic_curve::sec1::Tag::from_u8(byte) {
        Ok(elliptic_curve::sec1::Tag::CompressedEvenY) => Some(PointTag::CompressedEvenY),
        Ok(elliptic_curve::sec1::Tag::CompressedOddY) => Some(PointTag::CompressedOddY),
        Ok(elliptic_curve::sec1::Tag::Uncompressed) => Some(PointTag::Uncompressed),
        Err(_) => None,
    }
}

/// Calls `elliptic_curve::sec1::Tag::message_len`, which returns one more
/// than the field size for a compressed tag and one more than twice the
/// field size for the uncompressed one.
#[verifier::external_body]
fn message_len(tag: PointTag, field_size: usize) -> (r: usize)
    requires
        1 + 2 * field_size <= usize::MAX,
    ensures
        r == encoding_len(tag, field_size as nat),
{
    let tag = match tag {
        PointTag::CompressedEvenY => elliptic_curve::sec1::Tag::CompressedEvenY,
        PointTag::CompressedOddY => elliptic_curve::sec1::Tag::CompressedOddY,
        PointTag::Uncompressed => elliptic_curve::sec1::Tag::Uncompressed,
    };
    tag.message_len(field_size)
}

/// Whether a byte string has the shape of an encoded point: a known tag and
/// the length that goes with it.
pub open spec fn well_framed(bytes: Seq<u8>) -> bool {
    &&& bytes.len() >= 1
    &&& tag_of(bytes[0]).is_some()
    &&& bytes.len() == encoding_len(tag_of(bytes[0]).unwrap(), 32)
}

/// An encoded point, taken apart but not yet checked against the curve.
#[derive(Clone, Copy, Debug)]
pub enum EncodedPoint {
    /// The abscissa and the parity of the ordinate.
    Compressed { y_is_odd: bool, x: U256 },
    /// Both coordinates.
    Uncompressed { x: U256, y: U256 },
}

impl EncodedPoint {
    /// Whether this is what a well-framed byte string holds.
    pub open spec fn encodes(self, bytes: Seq<u8>) -> bool {
        match self {
            EncodedPoint::Compressed { y_is_odd, x } => {
                &&& bytes.len() == 33
                &&& bytes[0] == (if y_is_odd { 3u8 } else { 2u8 })
                &&& x.value() == be_nat(bytes.subrange(1, 33))
            },
            EncodedPoint::Uncompressed { x, y } => {
                &&& bytes.len() == 65
                &&& bytes[0] == 4
                &&& x.value() == be_nat(bytes.subrange(1, 33))
                &&& y.value() == be_nat(bytes.subrange(33, 65))
            },
        }
    }

    /// Takes an encoded point apart. A byte string that is empty, begins
    /// with an unknown tag or has the wrong length for its tag is a decoding
    /// error.
    pub fn from_bytes(bytes: &[u8]) -> (res: Result<EncodedPoint, Error>)
        ensures
            res.is_ok() == well_framed(bytes@),
            res.is_ok() ==> res.unwrap().encodes(bytes@),
            res.is_err() ==> res == Err::<EncodedPoint, Error>(Error::Decoding),
    {
        if bytes.len() == 0 {
            return Err(Error::Decoding);
        }
        let tag = match parse_tag(bytes[0]) {
            Some(tag) => tag,
            None => {
                return Err(Error::Decoding);
            },
        };
        if bytes.len() != message_len(tag, 32) {
            return Err(Error::Decoding);
        }
        let x = U256::from_be_slice(slice_subrange(bytes, 1, 33));
        match tag {
            PointTag::CompressedEvenY => Ok(EncodedPoint::Compressed { y_is_odd: false, x }),
            PointTag::CompressedOddY => Ok(EncodedPoint::Compressed { y_is_odd: true, x }),
            PointTag::Uncompressed => {
                let y = U256::from_be_slice(slice_subrange(bytes, 33, 65));
                Ok(EncodedPoint::Uncompressed { x, y })
            },
        }
    }
}

} // verus!
