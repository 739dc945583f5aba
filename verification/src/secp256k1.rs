//! The group of the curve secp256k1 and its scalar field, with the
//! arithmetic of the `k256` crate. Elements are held as their canonical
//! encodings.

pub mod point;
pub mod scalar;

pub use point::Point;
pub use scalar::Scalar;
