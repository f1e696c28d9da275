//! The hash-family capability: the one primitive everything else is built
//! from, with explicit domain separation for each use.

use vstd::prelude::*;
use sha3::Digest;
use crate::params::HashFamily;

verus! {

/// Domain tag: deriving the 32-byte master seed from user seed material.
pub const DOM_SEED: u8 = 1;

/// Domain tag: per-epoch, per-chain secret derivation.
pub const DOM_SECRET: u8 = 2;

/// Domain tag: one step of a one-time chain.
pub const DOM_CHAIN: u8 = 3;

/// Domain tag: committing a one-time unit's chain ends into a leaf.
pub const DOM_LEAF: u8 = 4;

/// Domain tag: combining two sibling nodes of the aggregation tree.
pub const DOM_NODE: u8 = 5;

/// Domain tag: hashing a message before chunking.
pub const DOM_MSG: u8 = 6;

/// The digest that the SHA3-256 backend produces for given input bytes.
pub uninterp spec fn sha3_of(input: Seq<u8>) -> Seq<u8>;

/// The digest that the Keccak-256 backend produces for given input bytes.
pub uninterp spec fn keccak_of(input: Seq<u8>) -> Seq<u8>;

/// The digest of `input` under hash family `f`.
pub open spec fn digest_of(f: HashFamily, input: Seq<u8>) -> Seq<u8> {
    match f {
        HashFamily::Sha3 => sha3_of(input),
        HashFamily::Keccak => keccak_of(input),
    }
}

/// Relies on `sha3::Sha3_256` through the `digest::Digest` interface:
/// `digest` is a pure function of the input bytes and always returns a
/// 32-byte digest.
#[verifier::external_body]
fn sha3_bytes(input: &Vec<u8>) -> (r: Vec<u8>)
    ensures
        r@ == sha3_of(input@),
        r@.len() == 32,
{
    sha3::Sha3_256::digest(input.as_slice()).to_vec()
}

/// Relies on `sha3::Keccak256` through the `digest::Digest` interface:
/// `digest` is a pure function of the input bytes and always returns a
/// 32-byte digest.
#[verifier::external_body]
fn keccak_bytes(input: &Vec<u8>) -> (r: Vec<u8>)
    ensures
        r@ == keccak_of(input@),
        r@.len() == 32,
{
    sha3::Keccak256::digest(input.as_slice()).to_vec()
}

/// Hash `input` under family `f`. Callers are oblivious to which backend
/// is active; the family is fixed at scheme construction.
pub fn digest_bytes(f: HashFamily, input: &Vec<u8>) -> (r: Vec<u8>)
    ensures
        r@ == digest_of(f, input@),
        r@.len() == 32,
{
    match f {
        HashFamily::Sha3 => sha3_bytes(input),
        HashFamily::Keccak => keccak_bytes(input),
    }
}

/// Relies on `getrandom::fill`: fills the buffer from the operating
/// system's entropy source, or reports that no entropy was available.
#[verifier::external_body]
pub fn os_random_bytes() -> (r: Option<Vec<u8>>)
    ensures
        r is Some ==> r.unwrap()@.len() == 32,
{
    let mut buf = vec![0u8; 32];
    match getrandom::fill(&mut buf) {
        Ok(()) => Some(buf),
        Err(_) => None,
    }
}

/// Append every byte of `src` to `dst`.
pub fn push_all(dst: &mut Vec<u8>, src: &Vec<u8>)
    ensures
        final(dst)@ == old(dst)@ + src@,
{
    let mut i: usize = 0;
    while i < src.len()
        invariant
            i <= src@.len(),
            dst@ == old(dst)@ + src@.take(i as int),
        decreases src@.len() - i,
    {
        dst.push(src[i]);
        proof {
            assert(old(dst)@ + src@.take(i as int) + seq![src@[i as int]]
                =~= old(dst)@ + src@.take(i as int + 1));
        }
        i = i + 1;
    }
    proof {
        assert(src@.take(src@.len() as int) =~= src@);
    }
}

/// The chained digest: `t` applications of the domain-tagged chain step.
pub open spec fn chain_digest(f: HashFamily, x: Seq<u8>, t: nat) -> Seq<u8>
    decreases t,
{
    if t == 0 {
        x
    } else {
        digest_of(f, seq![DOM_CHAIN] + chain_digest(f, x, (t - 1) as nat))
    }
}

/// Chains compose: walking `a` steps and then `b` steps is walking
/// `a + b` steps.
pub proof fn lemma_chain_compose(f: HashFamily, x: Seq<u8>, a: nat, b: nat)
    ensures
        chain_digest(f, chain_digest(f, x, a), b) == chain_digest(f, x, a + b),
    decreases b,
{
    if b > 0 {
        lemma_chain_compose(f, x, a, (b - 1) as nat);
    }
}

/// One chain step in executable code.
fn chain_step(f: HashFamily, x: &Vec<u8>) -> (r: Vec<u8>)
    ensures
        r@ == digest_of(f, seq![DOM_CHAIN] + x@),
        r@.len() == 32,
{
    let mut inp: Vec<u8> = Vec::new();
    inp.push(DOM_CHAIN);
    push_all(&mut inp, x);
    proof {
        assert(inp@ =~= seq![DOM_CHAIN] + x@);
    }
    digest_bytes(f, &inp)
}

/// Walk a one-time chain `steps` times from `x`.
pub fn chain_walk(f: HashFamily, x: &Vec<u8>, steps: u8) -> (r: Vec<u8>)
    ensures
        r@ == chain_digest(f, x@, steps as nat),
        steps > 0 ==> r@.len() == 32,
        steps == 0 ==> r@ == x@,
{
    let ghost x0 = x@;
    let mut cur: Vec<u8> = Vec::new();
    push_all(&mut cur, x);
    let mut t: u8 = 0;
    while t < steps
        invariant
            t <= steps,
            cur@ == chain_digest(f, x0, t as nat),
            t > 0 ==> cur@.len() == 32,
        decreases steps - t,
    {
        cur = chain_step(f, &cur);
        t = t + 1;
    }
    cur
}

} // verus!
