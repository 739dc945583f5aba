//! Multi-signatures: a fixed set of signers, each with a secret key and a
//! fresh nonce, jointly sign one message in three rounds. Round 1 aggregates
//! the public keys, round 2 exchanges commitments to the nonce points before
//! the points themselves, and round 3 assembles the signature. Verification
//! needs the public keys and the message only.

pub mod model;
pub mod oracle;
pub mod session;
pub mod signature;
pub mod signer;

pub use model::SessionError;
pub use oracle::hash_agg;
pub use oracle::hash_com;
pub use oracle::hash_sig;
pub use session::Committed;
pub use session::MuSig;
pub use session::R0;
pub use session::R1;
pub use session::R2;
pub use session::R3;
pub use signature::combine_keys;
pub use signature::key_coefficients;
pub use signature::verify;
pub use signature::verify_bytes;
pub use signature::Signature;
pub use signer::Signer;
