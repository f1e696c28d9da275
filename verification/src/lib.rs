//! An epoch-bounded, stateful hash-based signature scheme.
//!
//! A master seed deterministically derives one one-time key unit per epoch;
//! the units' commitments are aggregated into a single fixed-size root that
//! serves as the public key. The secret key maintains a sliding window of
//! prepared units, consumes exactly one unit per signature, and a signature
//! carries the authentication path that lets a verifier recompute the root.

pub mod params;
pub mod hash;
pub mod codec;
pub mod merkle;
pub mod ots;
pub mod keys;
pub mod scheme;
pub mod laws;

pub use params::{HashFamily, Params, SigError};
pub use keys::{PublicKey, SecretKey, Signature};
pub use scheme::{HashSigSHA3, HashSigPoseidon};
