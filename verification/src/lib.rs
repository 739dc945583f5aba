//! Signature schemes over an abstract group with a scalar field: a
//! multi-signature scheme in which several signers jointly produce one
//! signature for an aggregate of their public keys, and beside it a key
//! exchange and two single-signer signature schemes.
//!
//! The protocols are written against the capabilities of `group`, and
//! `secp256k1` provides them for one curve. `laws` holds what is proved of
//! the protocols as a whole.

pub mod ecdh;
pub mod ecdsa;
pub mod group;
pub mod hash;
pub mod laws;
pub mod musig;
pub mod schnorr;
pub mod secp256k1;

pub use hash::hash;
