//! ECDSA signature verification over the secp256k1 curve.
//!
//! The arithmetic is built from 64-bit limb primitives up to the verification
//! equation, and every layer carries a contract over plain integers.

pub mod curve;
pub mod digest;
pub mod error;
pub mod limb;
pub mod modular;
pub mod scalar;
pub mod sec1;
pub mod sig;
pub mod uint;
pub mod verify;

pub use curve::{AffinePoint, Point};
pub use error::Error;
pub use scalar::{NonZeroScalar, Scalar};
pub use sec1::EncodedPoint;
pub use sig::{RecoverableSignature, Signature};
pub use uint::U256;
pub use verify::VerifyKey;
