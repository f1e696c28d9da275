//! One-time key units: per-epoch chain secrets, the digit decomposition of
//! a message digest with its checksum, chain ends, and the leaf commitment
//! a unit contributes to the aggregation tree.

use vstd::prelude::*;
use vstd::arithmetic::div_mod::lemma_div_is_ordered;
use crate::params::HashFamily;
use crate::hash::{DOM_SECRET, DOM_LEAF, DOM_MSG, digest_of, digest_bytes, push_all, chain_digest, chain_walk, lemma_chain_compose};
use crate::codec::{u64_le, push_u64_le, flat_prefix};

verus! {

/// The domain-tagged digest of a message.
pub open spec fn msg_digest(f: HashFamily, m: Seq<u8>) -> Seq<u8> {
    digest_of(f, seq![DOM_MSG] + m)
}

/// The divisor that brings base-4 digit `r` of a byte to its low
/// bits: 4^r for `r` in 0..4.
pub open spec fn quarter_scale(r: nat) -> nat {
    if r == 0 {
        1
    } else if r == 1 {
        4
    } else if r == 2 {
        16
    } else {
        64
    }
}

/// Base-4 digit `j` of a digest, low digits of each byte first. The
/// message is bound through the first 16 bytes of its digest.
pub open spec fn msg_digit(d: Seq<u8>, j: nat) -> nat {
    ((d[(j / 4) as int] as nat) / quarter_scale(j % 4)) % 4
}

/// Sum of `3 - digit` over the first `j` message digits.
pub open spec fn checksum_partial(d: Seq<u8>, j: nat) -> int
    decreases j,
{
    if j == 0 {
        0
    } else {
        checksum_partial(d, (j - 1) as nat) + (3 - msg_digit(d, (j - 1) as nat))
    }
}

/// The Winternitz-style checksum over all 64 message digits.
pub open spec fn checksum_total(d: Seq<u8>) -> int {
    checksum_partial(d, 64)
}

/// Digit `j` of the chunked message: 64 message digits followed by the
/// four base-4 digits of the checksum.
pub open spec fn digit_at(d: Seq<u8>, j: nat) -> nat {
    if j < 64 {
        msg_digit(d, j)
    } else if j == 64 {
        (checksum_total(d) % 4) as nat
    } else if j == 65 {
        ((checksum_total(d) / 4) % 4) as nat
    } else if j == 66 {
        ((checksum_total(d) / 16) % 4) as nat
    } else {
        (checksum_total(d) / 64) as nat
    }
}

/// Every message digit fits a base-4 chain.
pub proof fn lemma_msg_digit_bound(d: Seq<u8>, j: nat)
    ensures
        msg_digit(d, j) <= 3,
{
}

/// The checksum stays within `[0, 3 * j]`.
pub proof fn lemma_checksum_partial_bound(d: Seq<u8>, j: nat)
    ensures
        0 <= checksum_partial(d, j) <= 3 * j,
    decreases j,
{
    if j > 0 {
        lemma_checksum_partial_bound(d, (j - 1) as nat);
        lemma_msg_digit_bound(d, (j - 1) as nat);
    }
}

/// Every digit of the chunked message fits a base-4 chain.
pub proof fn lemma_digit_bound(d: Seq<u8>, j: nat)
    ensures
        digit_at(d, j) <= 3,
{
    if j < 64 {
        lemma_msg_digit_bound(d, j);
    } else {
        lemma_checksum_partial_bound(d, 64);
        let s = checksum_total(d);
        if j >= 67 {
            lemma_div_is_ordered(s, 192, 64);
            assert(192int / 64 == 3);
        }
    }
}

/// Secret chain start `j` of the one-time unit for `epoch`.
pub open spec fn sk_chunk(f: HashFamily, seed: Seq<u8>, epoch: u64, j: nat) -> Seq<u8> {
    digest_of(f, seq![DOM_SECRET] + seed + u64_le(epoch) + seq![j as u8])
}

/// All 68 secret chain starts of the one-time unit for `epoch`.
pub open spec fn unit_secrets(f: HashFamily, seed: Seq<u8>, epoch: u64) -> Seq<Seq<u8>> {
    Seq::new(68, |j: int| sk_chunk(f, seed, epoch, j as nat))
}

/// The public chain ends reached by walking every secret to the top.
pub open spec fn ends_of_secrets(f: HashFamily, secrets: Seq<Seq<u8>>) -> Seq<Seq<u8>> {
    Seq::new(68, |j: int| chain_digest(f, secrets[j], 3))
}

/// The leaf commitment of the one-time unit for `epoch`: the hash of all
/// its public chain ends.
pub open spec fn leaf_digest(f: HashFamily, seed: Seq<u8>, epoch: u64) -> Seq<u8> {
    digest_of(f, seq![DOM_LEAF] + flat_prefix(ends_of_secrets(f, unit_secrets(f, seed, epoch)), 68))
}

/// The revealed chain values for signing `m` with the unit of `epoch`:
/// each secret walked up by its digit.
pub open spec fn reveals_for(f: HashFamily, seed: Seq<u8>, epoch: u64, m: Seq<u8>) -> Seq<Seq<u8>> {
    Seq::new(68, |j: int| chain_digest(f, sk_chunk(f, seed, epoch, j as nat), digit_at(msg_digest(f, m), j as nat)))
}

/// The chain ends a verifier recomputes from revealed values: each reveal
/// walked the rest of the way to the top.
pub open spec fn ends_from_reveals(f: HashFamily, d: Seq<u8>, reveals: Seq<Seq<u8>>) -> Seq<Seq<u8>> {
    Seq::new(68, |j: int| chain_digest(f, reveals[j], (3 - digit_at(d, j as nat)) as nat))
}

/// The leaf commitment a verifier recomputes from a message digest and
/// revealed chain values.
pub open spec fn leaf_from_reveals(f: HashFamily, d: Seq<u8>, reveals: Seq<Seq<u8>>) -> Seq<u8> {
    digest_of(f, seq![DOM_LEAF] + flat_prefix(ends_from_reveals(f, d, reveals), 68))
}

/// Honest reveals walk back up to the honest chain ends: recomputing the
/// leaf from a genuine signature yields the unit's leaf commitment.
pub proof fn lemma_reveals_rebuild_leaf(f: HashFamily, seed: Seq<u8>, epoch: u64, m: Seq<u8>)
    ensures
        leaf_from_reveals(f, msg_digest(f, m), reveals_for(f, seed, epoch, m))
            == leaf_digest(f, seed, epoch),
{
    let d = msg_digest(f, m);
    let rs = reveals_for(f, seed, epoch, m);
    assert forall|j: int| 0 <= j < 68 implies
        ends_from_reveals(f, d, rs)[j] == ends_of_secrets(f, unit_secrets(f, seed, epoch))[j]
    by {
        lemma_digit_bound(d, j as nat);
        let t = digit_at(d, j as nat);
        lemma_chain_compose(f, sk_chunk(f, seed, epoch, j as nat), t, (3 - t) as nat);
    }
    assert(ends_from_reveals(f, d, rs) =~= ends_of_secrets(f, unit_secrets(f, seed, epoch)));
}

/// Compute the message digest of `m` under family `f`.
pub fn hash_message(f: HashFamily, m: &Vec<u8>) -> (r: Vec<u8>)
    ensures
        r@ == msg_digest(f, m@),
        r@.len() == 32,
{
    let mut inp: Vec<u8> = Vec::new();
    inp.push(DOM_MSG);
    push_all(&mut inp, m);
    proof {
        assert(inp@ =~= seq![DOM_MSG] + m@);
    }
    digest_bytes(f, &inp)
}

/// Decompose a digest into its 68 chain digits.
pub fn compute_digits(d: &Vec<u8>) -> (digits: Vec<u8>)
    requires
        d@.len() == 32,
    ensures
        digits@.len() == 68,
        forall|j: int| 0 <= j < 68 ==> #[trigger] digits@[j] as nat == digit_at(d@, j as nat),
        forall|j: int| 0 <= j < 68 ==> #[trigger] digits@[j] <= 3,
{
    let mut digits: Vec<u8> = Vec::new();
    let mut j: usize = 0;
    while j < 64
        invariant
            j <= 64,
            d@.len() == 32,
            digits@.len() == j,
            forall|k: int| 0 <= k < j ==> #[trigger] digits@[k] as nat == msg_digit(d@, k as nat),
        decreases 64 - j,
    {
        let b = d[j / 4];
        let r = j % 4;
        let q: u8 = if r == 0 {
            1
        } else if r == 1 {
            4
        } else if r == 2 {
            16
        } else {
            64
        };
        proof {
            assert(q as nat == quarter_scale((j % 4) as nat));
        }
        let v: u8 = (b / q) % 4;
        digits.push(v);
        j = j + 1;
    }
    let mut s: u32 = 0;
    let mut k: usize = 0;
    while k < 64
        invariant
            k <= 64,
            d@.len() == 32,
            digits@.len() == 64,
            forall|i: int| 0 <= i < 64 ==> #[trigger] digits@[i] as nat == msg_digit(d@, i as nat),
            s as int == checksum_partial(d@, k as nat),
            s <= 192,
        decreases 64 - k,
    {
        proof {
            lemma_msg_digit_bound(d@, k as nat);
            lemma_checksum_partial_bound(d@, (k + 1) as nat);
        }
        s = s + (3 - digits[k]) as u32;
        k = k + 1;
    }
    proof {
        lemma_checksum_partial_bound(d@, 64);
    }
    digits.push((s % 4) as u8);
    digits.push(((s / 4) % 4) as u8);
    digits.push(((s / 16) % 4) as u8);
    digits.push((s / 64) as u8);
    proof {
        assert forall|j2: int| 0 <= j2 < 68 implies #[trigger] digits@[j2] as nat == digit_at(d@, j2 as nat) by {
            if j2 < 64 {
            } else {
                assert(s as int == checksum_total(d@));
            }
        }
        assert forall|j2: int| 0 <= j2 < 68 implies #[trigger] digits@[j2] <= 3 by {
            lemma_digit_bound(d@, j2 as nat);
        }
    }
    digits
}

/// Derive secret chain start `j` of the unit for `epoch` from the master
/// seed.
fn derive_secret(f: HashFamily, seed: &Vec<u8>, epoch: u64, j: u8) -> (r: Vec<u8>)
    ensures
        r@ == sk_chunk(f, seed@, epoch, j as nat),
        r@.len() == 32,
{
    let mut inp: Vec<u8> = Vec::new();
    inp.push(DOM_SECRET);
    push_all(&mut inp, seed);
    push_u64_le(&mut inp, epoch);
    inp.push(j);
    proof {
        assert(inp@ =~= seq![DOM_SECRET] + seed@ + u64_le(epoch) + seq![j]);
    }
    digest_bytes(f, &inp)
}

/// Derive the full one-time unit (all 68 secret chain starts) for `epoch`.
pub fn derive_unit(f: HashFamily, seed: &Vec<u8>, epoch: u64) -> (r: Vec<Vec<u8>>)
    ensures
        r.deep_view() == unit_secrets(f, seed@, epoch),
        r@.len() == 68,
        forall|j: int| 0 <= j < 68 ==> #[trigger] r@[j]@.len() == 32,
{
    let mut r: Vec<Vec<u8>> = Vec::new();
    let mut j: usize = 0;
    while j < 68
        invariant
            j <= 68,
            r@.len() == j,
            forall|k: int| 0 <= k < j ==> #[trigger] r@[k]@ == sk_chunk(f, seed@, epoch, k as nat),
            forall|k: int| 0 <= k < j ==> #[trigger] r@[k]@.len() == 32,
        decreases 68 - j,
    {
        let sc = derive_secret(f, seed, epoch, j as u8);
        r.push(sc);
        j = j + 1;
    }
    proof {
        crate::codec::lemma_deep_view_bytes(&r);
        assert(r.deep_view() =~= unit_secrets(f, seed@, epoch));
    }
    r
}

/// Walk every chain of `secrets` up by the given number of steps.
pub fn walk_all(f: HashFamily, secrets: &Vec<Vec<u8>>, steps: &Vec<u8>) -> (r: Vec<Vec<u8>>)
    requires
        secrets@.len() == 68,
        steps@.len() == 68,
    ensures
        r@.len() == 68,
        forall|j: int| 0 <= j < 68 ==>
            #[trigger] r@[j]@ == chain_digest(f, secrets@[j]@, steps@[j] as nat),
        forall|j: int| 0 <= j < 68 ==> steps@[j] > 0 ==> #[trigger] r@[j]@.len() == 32,
        forall|j: int| 0 <= j < 68 ==> steps@[j] == 0 ==> #[trigger] r@[j]@ == secrets@[j]@,
    decreases 0int,
{
    let mut r: Vec<Vec<u8>> = Vec::new();
    let mut j: usize = 0;
    while j < 68
        invariant
            secrets@.len() == 68,
            steps@.len() == 68,
            j <= 68,
            r@.len() == j,
            forall|k: int| 0 <= k < j ==>
                #[trigger] r@[k]@ == chain_digest(f, secrets@[k]@, steps@[k] as nat),
            forall|k: int| 0 <= k < j ==> steps@[k] > 0 ==> #[trigger] r@[k]@.len() == 32,
            forall|k: int| 0 <= k < j ==> steps@[k] == 0 ==> #[trigger] r@[k]@ == secrets@[k]@,
        decreases 68 - j,
    {
        let w = chain_walk(f, &secrets[j], steps[j]);
        r.push(w);
        j = j + 1;
    }
    r
}

/// Hash a full set of chain ends into the unit's leaf commitment.
pub fn hash_ends(f: HashFamily, ends: &Vec<Vec<u8>>) -> (r: Vec<u8>)
    requires
        ends@.len() == 68,
        forall|j: int| 0 <= j < 68 ==> #[trigger] ends@[j]@.len() == 32,
    ensures
        r@ == digest_of(f, seq![DOM_LEAF] + flat_prefix(ends.deep_view(), 68)),
        r@.len() == 32,
{
    let mut inp: Vec<u8> = Vec::new();
    inp.push(DOM_LEAF);
    crate::codec::push_flat(&mut inp, ends);
    proof {
        assert(inp@ =~= seq![DOM_LEAF] + flat_prefix(ends.deep_view(), 68));
    }
    digest_bytes(f, &inp)
}

/// Compute the leaf commitment of the unit for `epoch` directly from the
/// master seed.
pub fn compute_leaf(f: HashFamily, seed: &Vec<u8>, epoch: u64) -> (r: Vec<u8>)
    ensures
        r@ == leaf_digest(f, seed@, epoch),
        r@.len() == 32,
{
    let secrets = derive_unit(f, seed, epoch);
    let mut tops: Vec<u8> = Vec::new();
    let mut i: usize = 0;
    while i < 68
        invariant
            i <= 68,
            tops@.len() == i,
            forall|k: int| 0 <= k < i ==> #[trigger] tops@[k] == 3u8,
        decreases 68 - i,
    {
        tops.push(3u8);
        i = i + 1;
    }
    let ends = walk_all(f, &secrets, &tops);
    proof {
        crate::codec::lemma_deep_view_bytes(&ends);
        crate::codec::lemma_deep_view_bytes(&secrets);
        assert(ends.deep_view() =~= ends_of_secrets(f, unit_secrets(f, seed@, epoch)));
    }
    hash_ends(f, &ends)
}

} // verus!
