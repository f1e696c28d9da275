//! The canonical wire format's building blocks: little-endian integers and
//! flat concatenations of fixed-size digests.

use vstd::prelude::*;

verus! {

/// Little-endian bytes of a 64-bit integer.
pub open spec fn u64_le(x: u64) -> Seq<u8> {
    seq![
        (x & 0xff) as u8,
        ((x >> 8) & 0xff) as u8,
        ((x >> 16) & 0xff) as u8,
        ((x >> 24) & 0xff) as u8,
        ((x >> 32) & 0xff) as u8,
        ((x >> 40) & 0xff) as u8,
        ((x >> 48) & 0xff) as u8,
        ((x >> 56) & 0xff) as u8,
    ]
}

/// The 64-bit integer read from 8 little-endian bytes.
pub open spec fn u64_from_le(b: Seq<u8>) -> u64 {
    (b[0] as u64) | ((b[1] as u64) << 8) | ((b[2] as u64) << 16)
        | ((b[3] as u64) << 24) | ((b[4] as u64) << 32) | ((b[5] as u64) << 40)
        | ((b[6] as u64) << 48) | ((b[7] as u64) << 56)
}

/// Reading back the little-endian bytes of `x` yields `x`.
pub proof fn lemma_u64_le_round_trip(x: u64)
    ensures
        u64_from_le(u64_le(x)) == x,
{
    assert(((x & 0xff) as u8 as u64)
        | ((((x >> 8) & 0xff) as u8 as u64) << 8)
        | ((((x >> 16) & 0xff) as u8 as u64) << 16)
        | ((((x >> 24) & 0xff) as u8 as u64) << 24)
        | ((((x >> 32) & 0xff) as u8 as u64) << 32)
        | ((((x >> 40) & 0xff) as u8 as u64) << 40)
        | ((((x >> 48) & 0xff) as u8 as u64) << 48)
        | ((((x >> 56) & 0xff) as u8 as u64) << 56) == x) by (bit_vector);
}

/// Append the little-endian bytes of `x` to `dst`.
pub fn push_u64_le(dst: &mut Vec<u8>, x: u64)
    ensures
        final(dst)@ == old(dst)@ + u64_le(x),
{
    dst.push((x & 0xff) as u8);
    dst.push(((x >> 8) & 0xff) as u8);
    dst.push(((x >> 16) & 0xff) as u8);
    dst.push(((x >> 24) & 0xff) as u8);
    dst.push(((x >> 32) & 0xff) as u8);
    dst.push(((x >> 40) & 0xff) as u8);
    dst.push(((x >> 48) & 0xff) as u8);
    dst.push(((x >> 56) & 0xff) as u8);
    proof {
        assert(dst@ =~= old(dst)@ + u64_le(x));
    }
}

/// Read a 64-bit little-endian integer from `b` starting at `at`.
pub fn read_u64_le(b: &Vec<u8>, at: usize) -> (r: u64)
    requires
        at + 8 <= b@.len(),
    ensures
        r == u64_from_le(b@.subrange(at as int, at as int + 8)),
{
    let n = b.len();
    assert(at + 8 <= n);
    let r = (b[at] as u64) | ((b[at + 1] as u64) << 8) | ((b[at + 2] as u64) << 16)
        | ((b[at + 3] as u64) << 24) | ((b[at + 4] as u64) << 32)
        | ((b[at + 5] as u64) << 40) | ((b[at + 6] as u64) << 48)
        | ((b[at + 7] as u64) << 56);
    proof {
        let s = b@.subrange(at as int, at as int + 8);
        assert(s[0] == b@[at as int]);
        assert(s[1] == b@[at as int + 1]);
        assert(s[2] == b@[at as int + 2]);
        assert(s[3] == b@[at as int + 3]);
        assert(s[4] == b@[at as int + 4]);
        assert(s[5] == b@[at as int + 5]);
        assert(s[6] == b@[at as int + 6]);
        assert(s[7] == b@[at as int + 7]);
    }
    r
}

/// The deep view of a vector of byte vectors is the sequence of their
/// views.
pub proof fn lemma_deep_view_bytes(v: &Vec<Vec<u8>>)
    ensures
        v.deep_view().len() == v@.len(),
        forall|i: int| 0 <= i < v@.len() ==> #[trigger] v.deep_view()[i] == v@[i]@,
{
    assert forall|i: int| 0 <= i < v@.len() implies #[trigger] v.deep_view()[i] == v@[i]@ by {
        assert(v@[i].deep_view() =~= v@[i]@);
    }
}

/// The flat concatenation of the first `n` entries of `s`.
pub open spec fn flat_prefix(s: Seq<Seq<u8>>, n: nat) -> Seq<u8>
    decreases n,
{
    if n == 0 {
        Seq::empty()
    } else {
        flat_prefix(s, (n - 1) as nat) + s[n - 1]
    }
}

/// Every entry 32 bytes long makes the flat prefix `32 * n` bytes long.
pub proof fn lemma_flat_prefix_len(s: Seq<Seq<u8>>, n: nat)
    requires
        n <= s.len(),
        forall|i: int| 0 <= i < n ==> #[trigger] s[i].len() == 32,
    ensures
        flat_prefix(s, n).len() == 32 * n,
    decreases n,
{
    if n > 0 {
        lemma_flat_prefix_len(s, (n - 1) as nat);
    }
}

/// Entry `i` sits at offset `32 * i` of the flat prefix.
pub proof fn lemma_flat_prefix_index(s: Seq<Seq<u8>>, n: nat, i: nat)
    requires
        i < n <= s.len(),
        forall|k: int| 0 <= k < n ==> #[trigger] s[k].len() == 32,
    ensures
        flat_prefix(s, n).subrange(32 * (i as int), 32 * (i as int) + 32) == s[i as int],
    decreases n,
{
    lemma_flat_prefix_len(s, (n - 1) as nat);
    if i + 1 == n {
        assert(flat_prefix(s, n).subrange(32 * (i as int), 32 * (i as int) + 32)
            =~= s[i as int]);
    } else {
        lemma_flat_prefix_index(s, (n - 1) as nat, i);
        assert(flat_prefix(s, n).subrange(32 * (i as int), 32 * (i as int) + 32)
            =~= flat_prefix(s, (n - 1) as nat).subrange(32 * (i as int), 32 * (i as int) + 32));
    }
}

/// Append the flat concatenation of `parts` (each 32 bytes) to `dst`.
pub fn push_flat(dst: &mut Vec<u8>, parts: &Vec<Vec<u8>>)
    requires
        forall|i: int| 0 <= i < parts@.len() ==> #[trigger] parts@[i]@.len() == 32,
    ensures
        final(dst)@ == old(dst)@ + flat_prefix(parts.deep_view(), parts@.len() as nat),
{
    let mut i: usize = 0;
    while i < parts.len()
        invariant
            i <= parts@.len(),
            forall|k: int| 0 <= k < parts@.len() ==> #[trigger] parts@[k]@.len() == 32,
            dst@ == old(dst)@ + flat_prefix(parts.deep_view(), i as nat),
        decreases parts@.len() - i,
    {
        let p = &parts[i];
        crate::hash::push_all(dst, p);
        proof {
            assert(parts.deep_view()[i as int] == parts@[i as int]@);
        }
        i = i + 1;
    }
}

/// Copy `b[at .. at + 32]` out as a fresh digest-sized vector.
pub fn read_digest(b: &Vec<u8>, at: usize) -> (r: Vec<u8>)
    requires
        at + 32 <= b@.len(),
    ensures
        r@ == b@.subrange(at as int, at as int + 32),
        r@.len() == 32,
{
    let n = b.len();
    assert(at + 32 <= n);
    let mut r: Vec<u8> = Vec::new();
    let mut i: usize = 0;
    while i < 32
        invariant
            i <= 32,
            at + 32 <= b@.len() <= usize::MAX,
            r@ == b@.subrange(at as int, at as int + i as int),
        decreases 32 - i,
    {
        r.push(b[at + i]);
        proof {
            assert(b@.subrange(at as int, at as int + i as int) + seq![b@[at as int + i as int]]
                =~= b@.subrange(at as int, at as int + i as int + 1));
        }
        i = i + 1;
    }
    r
}

/// Byte-for-byte equality of two vectors.
pub fn bytes_eq(a: &Vec<u8>, b: &Vec<u8>) -> (r: bool)
    ensures
        r == (a@ == b@),
{
    if a.len() != b.len() {
        return false;
    }
    let mut i: usize = 0;
    while i < a.len()
        invariant
            a@.len() == b@.len(),
            i <= a@.len(),
            forall|k: int| 0 <= k < i ==> a@[k] == b@[k],
        decreases a@.len() - i,
    {
        if a[i] != b[i] {
            return false;
        }
        i = i + 1;
    }
    proof {
        assert(a@ =~= b@);
    }
    true
}

/// Are all entries exactly 32 bytes long?
pub fn all_len32(v: &Vec<Vec<u8>>) -> (r: bool)
    ensures
        r == (forall|i: int| 0 <= i < v@.len() ==> (#[trigger] v@[i])@.len() == 32),
{
    let mut i: usize = 0;
    while i < v.len()
        invariant
            i <= v@.len(),
            forall|k: int| 0 <= k < i ==> (#[trigger] v@[k])@.len() == 32,
        decreases v@.len() - i,
    {
        if v[i].len() != 32 {
            return false;
        }
        i = i + 1;
    }
    true
}

} // verus!
