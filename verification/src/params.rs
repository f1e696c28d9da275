//! Scheme parameters, the hash-family selector, and the error taxonomy.

use vstd::prelude::*;

verus! {

/// Digest size, in bytes, of every hash-family backend.
pub const DIGEST_LEN: usize = 32;

/// Number of message chunks: one base-4 digit for each of the first 16
/// digest bytes.
pub const NUM_MSG_CHUNKS: usize = 64;

/// Number of base-4 checksum chunks (the checksum is at most 192 < 4^4).
pub const NUM_CHECKSUM_CHUNKS: usize = 4;

/// Total chunks of a one-time unit: message chunks plus checksum chunks.
pub const NUM_CHUNKS: usize = 68;

/// Maximum value of a chunk, and so the length of every one-time chain.
pub const CHAIN_MAX: u8 = 3;

/// Largest supported lifetime: the aggregation tree must fit in memory
/// indices, so the epoch count is capped at 2^31.
pub const MAX_LIFETIME: u64 = 0x8000_0000;

/// Default lifetime of a scheme instance (about a million epochs).
pub const DEFAULT_LIFETIME: u64 = 0x10_0000;

/// Default number of epochs prepared ahead by key generation and by one
/// `advance_preparation` call. Policy, not mechanism: any target within the
/// lifetime may be requested through `advance`.
pub const DEFAULT_WINDOW_STEP: u64 = 100;

/// Selects which hash permutation backend a scheme instance is built on.
/// Every derivation mixes the family into the hash input, so the two
/// families never share key material.
#[derive(Clone, Copy, PartialEq, Eq, Structural, Debug)]
pub enum HashFamily {
    /// The SHA3-256 sponge instantiation.
    Sha3,
    /// The second, permutation-style instantiation (Keccak-256 backend).
    Keccak,
}

/// Wire identifier of a hash family.
pub open spec fn family_id(f: HashFamily) -> u8 {
    match f {
        HashFamily::Sha3 => 1u8,
        HashFamily::Keccak => 2u8,
    }
}

/// Executable twin of `family_id`.
pub fn family_id_byte(f: HashFamily) -> (r: u8)
    ensures
        r == family_id(f),
{
    match f {
        HashFamily::Sha3 => 1u8,
        HashFamily::Keccak => 2u8,
    }
}

/// Immutable parameters of a scheme instance.
#[derive(Clone, Copy, PartialEq, Eq, Structural, Debug)]
pub struct Params {
    /// The hash family every derivation goes through.
    pub family: HashFamily,
    /// Number of epochs this instance supports; epochs lie in `[0, lifetime)`.
    pub lifetime: u64,
}

/// Well-formed parameters: at least one epoch, and a lifetime small enough
/// that the padded aggregation tree is indexable.
pub open spec fn params_wf(p: Params) -> bool {
    1 <= p.lifetime <= MAX_LIFETIME
}

/// Everything that a key-lifecycle operation can reject.
#[derive(Clone, Copy, PartialEq, Eq, Structural, Debug)]
pub enum SigError {
    /// The epoch is at or beyond the instance lifetime.
    EpochOutOfRange,
    /// The epoch lies outside the prepared window of the secret key.
    EpochNotPrepared,
    /// The epoch's one-time unit was already consumed by an earlier signature.
    EpochAlreadyUsed,
    /// An `advance` request that would shrink the window or pass the lifetime.
    InvalidWindow,
    /// Serialized bytes with a bad length, tag, or field.
    DecodeError,
    /// The operating system's entropy source failed to provide a seed.
    RandomnessUnavailable,
}

} // verus!
