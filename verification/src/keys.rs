//! The three serializable entities — public key, secret key, signature —
//! their mathematical views, well-formedness, the canonical wire format,
//! and the secret key's preparation-window state machine.

use vstd::prelude::*;
use crate::params::{HashFamily, Params, SigError, family_id, family_id_byte, params_wf, MAX_LIFETIME, DEFAULT_WINDOW_STEP};
use crate::hash::{DOM_SEED, digest_of, digest_bytes, push_all};
use crate::codec::{u64_le, u64_from_le, push_u64_le, read_u64_le, read_digest, flat_prefix, push_flat, lemma_deep_view_bytes, lemma_flat_prefix_len};
use crate::merkle::{pow2, depth_for, node_hash, compute_pow2, compute_depth};
use crate::ots::{leaf_digest, unit_secrets, derive_unit};

verus! {

/// The 32-byte master seed derived from caller-provided seed material.
pub open spec fn master_seed_of(f: HashFamily, user_seed: Seq<u8>) -> Seq<u8> {
    digest_of(f, seq![DOM_SEED] + user_seed)
}

/// The padding leaf used beyond the lifetime.
pub open spec fn zero_digest() -> Seq<u8> {
    Seq::new(32, |i: int| 0u8)
}

/// Leaf `e` of the padded tree: a real unit commitment inside the
/// lifetime, the padding digest beyond it.
pub open spec fn leaf_at(f: HashFamily, seed: Seq<u8>, lifetime: u64, e: nat) -> Seq<u8> {
    if e < lifetime {
        leaf_digest(f, seed, e as u64)
    } else {
        zero_digest()
    }
}

/// All leaves of the padded tree.
pub open spec fn leaf_seq(f: HashFamily, seed: Seq<u8>, lifetime: u64) -> Seq<Seq<u8>> {
    Seq::new(pow2(depth_for(lifetime as nat)), |i: int| leaf_at(f, seed, lifetime, i as nat))
}

/// The root commitment that stands in for every epoch of the scheme.
pub open spec fn root_spec(f: HashFamily, seed: Seq<u8>, lifetime: u64) -> Seq<u8> {
    node_hash(f, leaf_seq(f, seed, lifetime), depth_for(lifetime as nat), 0)
}

/// Mathematical view of a public key.
#[verifier::ext_equal]
pub struct PublicKeyView {
    pub params: Params,
    pub root: Seq<u8>,
}

/// The public key: parameters plus the fixed-size root commitment.
#[derive(Debug, Clone)]
pub struct PublicKey {
    pub params: Params,
    pub root: Vec<u8>,
}

impl View for PublicKey {
    type V = PublicKeyView;

    open spec fn view(&self) -> PublicKeyView {
        PublicKeyView { params: self.params, root: self.root@ }
    }
}

/// Structurally well-formed public key material.
pub open spec fn pk_wf(v: PublicKeyView) -> bool {
    &&& params_wf(v.params)
    &&& v.root.len() == 32
}

/// Mathematical view of a signature.
#[verifier::ext_equal]
pub struct SignatureView {
    pub epoch: u64,
    pub reveals: Seq<Seq<u8>>,
    pub path: Seq<Seq<u8>>,
}

/// A signature: the epoch it is bound to, the revealed chain values, and
/// the authentication path to the root.
#[derive(Debug, Clone)]
pub struct Signature {
    pub epoch: u64,
    pub reveals: Vec<Vec<u8>>,
    pub path: Vec<Vec<u8>>,
}

impl View for Signature {
    type V = SignatureView;

    open spec fn view(&self) -> SignatureView {
        SignatureView {
            epoch: self.epoch,
            reveals: self.reveals.deep_view(),
            path: self.path.deep_view(),
        }
    }
}

/// Structurally well-formed signature material.
pub open spec fn sig_wf(v: SignatureView) -> bool {
    &&& v.reveals.len() == 68
    &&& forall|j: int| 0 <= j < 68 ==> #[trigger] v.reveals[j].len() == 32
    &&& v.path.len() <= 31
    &&& forall|l: int| 0 <= l < v.path.len() ==> #[trigger] v.path[l].len() == 32
}

/// Mathematical view of a secret key: the derivation state, the window
/// bounds, and which units of the window are still present.
#[verifier::ext_equal]
pub struct SecretKeyView {
    pub params: Params,
    pub seed: Seq<u8>,
    pub prepared_start: u64,
    pub prepared_end: u64,
    pub present: Seq<bool>,
}

/// The secret key: master seed, prepared window `[prepared_start,
/// prepared_end)`, the arena of one-time units (consumed slots are
/// `None`), and the cached leaf commitments for path derivation.
///
/// Every mutation goes through `&mut self`, so a holder gets the
/// single-owner discipline that window and consumption updates need:
/// check-then-consume is one exclusive call.
#[derive(Debug)]
pub struct SecretKey {
    pub params: Params,
    pub seed: Vec<u8>,
    pub prepared_start: u64,
    pub prepared_end: u64,
    pub units: Vec<Option<Vec<Vec<u8>>>>,
    pub leaves: Vec<Vec<u8>>,
}

impl View for SecretKey {
    type V = SecretKeyView;

    open spec fn view(&self) -> SecretKeyView {
        SecretKeyView {
            params: self.params,
            seed: self.seed@,
            prepared_start: self.prepared_start,
            prepared_end: self.prepared_end,
            present: Seq::new(self.units@.len(), |i: int| self.units@[i] is Some),
        }
    }
}

/// The window bounds lie inside the lifetime and the presence arena
/// covers exactly the window.
pub open spec fn sk_view_wf(v: SecretKeyView) -> bool {
    &&& params_wf(v.params)
    &&& v.seed.len() == 32
    &&& v.prepared_start <= v.prepared_end <= v.params.lifetime
    &&& v.present.len() == v.prepared_end - v.prepared_start
}

/// Full well-formedness of the concrete secret key: the view is well
/// formed, every remaining unit is exactly the unit derived from the
/// seed for its epoch, and the leaf cache matches the derivation.
pub open spec fn sk_wf(sk: SecretKey) -> bool {
    &&& sk_view_wf(sk@)
    &&& sk.units@.len() == sk.prepared_end - sk.prepared_start
    &&& forall|i: int| 0 <= i < sk.units@.len() ==>
            ((#[trigger] sk.units@[i]) matches Some(u) ==>
                u.deep_view() == unit_secrets(sk.params.family, sk.seed@, (sk.prepared_start + i) as u64))
    &&& forall|i: int, j: int| 0 <= i < sk.units@.len() && 0 <= j < 68 && sk.units@[i] is Some ==>
            sk.units@[i].unwrap()@.len() == 68
                && (#[trigger] sk.units@[i].unwrap()@[j])@.len() == 32
    &&& sk.leaves.deep_view() == leaf_seq(sk.params.family, sk.seed@, sk.params.lifetime)
    &&& forall|i: int| 0 <= i < sk.leaves@.len() ==> (#[trigger] sk.leaves@[i])@.len() == 32
}

/// The view-level effect of `advance(target)`: a valid target extends
/// the window with fresh present units; an invalid one changes nothing.
pub open spec fn advance_result(v: SecretKeyView, target: u64) -> SecretKeyView {
    if v.prepared_end <= target <= v.params.lifetime {
        SecretKeyView {
            prepared_end: target,
            present: v.present + Seq::new((target - v.prepared_end) as nat, |i: int| true),
            ..v
        }
    } else {
        v
    }
}

/// Is `epoch` inside the prepared window?
pub open spec fn in_window(v: SecretKeyView, epoch: u64) -> bool {
    v.prepared_start <= epoch < v.prepared_end
}

/// Is the one-time unit for `epoch` still present (in window and not yet
/// consumed)?
pub open spec fn unit_present(v: SecretKeyView, epoch: u64) -> bool {
    in_window(v, epoch) && v.present[epoch - v.prepared_start]
}

// ------------------------------------------------------------------
// Canonical wire format
// ------------------------------------------------------------------

/// The parameters identifier: family byte, then the lifetime.
pub open spec fn params_id_bytes(p: Params) -> Seq<u8> {
    seq![family_id(p.family)] + u64_le(p.lifetime)
}

/// PublicKey bytes: parameters identifier, then the root digest.
pub open spec fn encode_pk(v: PublicKeyView) -> Seq<u8> {
    params_id_bytes(v.params) + v.root
}

/// SecretKey bytes: parameters identifier, derivation state, then the
/// window bounds.
pub open spec fn encode_sk(v: SecretKeyView) -> Seq<u8> {
    params_id_bytes(v.params) + v.seed + u64_le(v.prepared_start) + u64_le(v.prepared_end)
}

/// Signature bytes: epoch, then the revealed chain values, then the
/// authentication path.
pub open spec fn encode_sig(v: SignatureView) -> Seq<u8> {
    u64_le(v.epoch) + flat_prefix(v.reveals, 68) + flat_prefix(v.path, v.path.len() as nat)
}

/// Parse the 9-byte parameters identifier at the head of `b`.
pub open spec fn decode_params(b: Seq<u8>) -> Option<Params> {
    if b.len() < 9 {
        None
    } else {
        let lt = u64_from_le(b.subrange(1, 9));
        if (b[0] == 1 || b[0] == 2) && 1 <= lt <= MAX_LIFETIME {
            Some(
                Params {
                    family: if b[0] == 1 { HashFamily::Sha3 } else { HashFamily::Keccak },
                    lifetime: lt,
                },
            )
        } else {
            None
        }
    }
}

/// Parse public key bytes; any length or tag mismatch is rejected.
pub open spec fn decode_pk(b: Seq<u8>) -> Option<PublicKeyView> {
    if b.len() == 41 && decode_params(b) is Some {
        Some(PublicKeyView { params: decode_params(b).unwrap(), root: b.subrange(9, 41) })
    } else {
        None
    }
}

/// Parse secret key bytes; the reconstructed window has every unit
/// present.
pub open spec fn decode_sk(b: Seq<u8>) -> Option<SecretKeyView> {
    if b.len() == 57 && decode_params(b) is Some {
        let p = decode_params(b).unwrap();
        let start = u64_from_le(b.subrange(41, 49));
        let end = u64_from_le(b.subrange(49, 57));
        if start <= end <= p.lifetime {
            Some(
                SecretKeyView {
                    params: p,
                    seed: b.subrange(9, 41),
                    prepared_start: start,
                    prepared_end: end,
                    present: Seq::new((end - start) as nat, |i: int| true),
                },
            )
        } else {
            None
        }
    } else {
        None
    }
}

/// Parse signature bytes; the path length is inferred from the total
/// length.
pub open spec fn decode_sig(b: Seq<u8>) -> Option<SignatureView> {
    if b.len() >= 2184 && (b.len() - 2184) % 32 == 0 && (b.len() - 2184) / 32 <= 31 {
        Some(
            SignatureView {
                epoch: u64_from_le(b.subrange(0, 8)),
                reveals: Seq::new(68, |j: int| b.subrange(8 + 32 * j, 8 + 32 * j + 32)),
                path: Seq::new(
                    (((b.len() - 2184) as int / 32) as nat),
                    |l: int| b.subrange(2184 + 32 * l, 2184 + 32 * l + 32),
                ),
            },
        )
    } else {
        None
    }
}

// ------------------------------------------------------------------
// Shared derivation helpers
// ------------------------------------------------------------------

/// The 32-byte padding digest.
pub fn make_zero_digest() -> (r: Vec<u8>)
    ensures
        r@ == zero_digest(),
        r@.len() == 32,
{
    let mut r: Vec<u8> = Vec::new();
    let mut i: usize = 0;
    while i < 32
        invariant
            i <= 32,
            r@.len() == i,
            forall|k: int| 0 <= k < i ==> #[trigger] r@[k] == 0u8,
        decreases 32 - i,
    {
        r.push(0u8);
        i = i + 1;
    }
    proof {
        assert(r@ =~= zero_digest());
    }
    r
}

/// Derive every leaf commitment of the padded tree from the master seed.
pub fn build_leaves(f: HashFamily, seed: &Vec<u8>, lifetime: u64) -> (r: Vec<Vec<u8>>)
    requires
        1 <= lifetime <= MAX_LIFETIME,
    ensures
        r.deep_view() == leaf_seq(f, seed@, lifetime),
        r@.len() == pow2(depth_for(lifetime as nat)),
        forall|i: int| 0 <= i < r@.len() ==> (#[trigger] r@[i])@.len() == 32,
{
    let d = compute_depth(lifetime);
    let n64 = compute_pow2(d);
    let n = n64 as usize;
    let mut r: Vec<Vec<u8>> = Vec::new();
    let mut e: usize = 0;
    while e < n
        invariant
            n == pow2(depth_for(lifetime as nat)),
            n <= 0x8000_0000,
            e <= n,
            r@.len() == e,
            forall|k: int| 0 <= k < e ==> (#[trigger] r@[k])@ == leaf_at(f, seed@, lifetime, k as nat),
            forall|k: int| 0 <= k < e ==> (#[trigger] r@[k])@.len() == 32,
        decreases n - e,
    {
        if (e as u64) < lifetime {
            let leaf = crate::ots::compute_leaf(f, seed, e as u64);
            r.push(leaf);
        } else {
            r.push(make_zero_digest());
        }
        e = e + 1;
    }
    proof {
        lemma_deep_view_bytes(&r);
        assert(r.deep_view() =~= leaf_seq(f, seed@, lifetime));
    }
    r
}

/// Derive the arena of present units for the window `[start, end)`.
pub fn build_units(f: HashFamily, seed: &Vec<u8>, start: u64, end: u64) -> (r: Vec<Option<Vec<Vec<u8>>>>)
    requires
        start <= end <= MAX_LIFETIME,
    ensures
        r@.len() == end - start,
        forall|i: int| 0 <= i < r@.len() ==> (#[trigger] r@[i]) is Some,
        forall|i: int| 0 <= i < r@.len() ==>
            ((#[trigger] r@[i]) matches Some(u) ==>
                u.deep_view() == unit_secrets(f, seed@, (start + i) as u64)),
        forall|i: int, j: int| 0 <= i < r@.len() && 0 <= j < 68 && r@[i] is Some ==>
            r@[i].unwrap()@.len() == 68 && (#[trigger] r@[i].unwrap()@[j])@.len() == 32,
{
    let count = (end - start) as usize;
    let mut r: Vec<Option<Vec<Vec<u8>>>> = Vec::new();
    let mut i: usize = 0;
    while i < count
        invariant
            count == end - start,
            start <= end <= MAX_LIFETIME,
            i <= count,
            r@.len() == i,
            forall|k: int| 0 <= k < i ==> (#[trigger] r@[k]) is Some,
            forall|k: int| 0 <= k < i ==>
                ((#[trigger] r@[k]) matches Some(u) ==>
                    u.deep_view() == unit_secrets(f, seed@, (start + k) as u64)),
            forall|k: int, j: int| 0 <= k < i && 0 <= j < 68 && r@[k] is Some ==>
                r@[k].unwrap()@.len() == 68 && (#[trigger] r@[k].unwrap()@[j])@.len() == 32,
        decreases count - i,
    {
        let u = derive_unit(f, seed, start + i as u64);
        r.push(Some(u));
        i = i + 1;
    }
    r
}

// ------------------------------------------------------------------
// Serialization
// ------------------------------------------------------------------

impl PublicKey {
    /// Serialize to the canonical wire format.
    pub fn to_bytes(&self) -> (r: Vec<u8>)
        requires
            pk_wf(self@),
        ensures
            r@ == encode_pk(self@),
    {
        let mut out: Vec<u8> = Vec::new();
        out.push(family_id_byte(self.params.family));
        push_u64_le(&mut out, self.params.lifetime);
        push_all(&mut out, &self.root);
        proof {
            assert(out@ =~= encode_pk(self@));
        }
        out
    }

    /// Parse from the canonical wire format; any length or tag mismatch
    /// yields `DecodeError`.
    pub fn from_bytes(data: &Vec<u8>) -> (r: Result<PublicKey, SigError>)
        ensures
            r is Ok <==> decode_pk(data@) is Some,
            r matches Ok(pk) ==> pk@ == decode_pk(data@).unwrap() && pk_wf(pk@),
            r matches Err(e) ==> e == SigError::DecodeError,
    {
        if data.len() != 41 {
            return Err(SigError::DecodeError);
        }
        let fb = data[0];
        if fb != 1 && fb != 2 {
            return Err(SigError::DecodeError);
        }
        let family = if fb == 1 { HashFamily::Sha3 } else { HashFamily::Keccak };
        let lifetime = read_u64_le(data, 1);
        if lifetime < 1 || lifetime > MAX_LIFETIME {
            return Err(SigError::DecodeError);
        }
        let root = read_digest(data, 9);
        let pk = PublicKey { params: Params { family, lifetime }, root };
        proof {
            assert(decode_pk(data@) is Some);
            assert(pk@ =~= decode_pk(data@).unwrap());
        }
        Ok(pk)
    }
}

impl Signature {
    /// Serialize to the canonical wire format.
    pub fn to_bytes(&self) -> (r: Vec<u8>)
        requires
            sig_wf(self@),
        ensures
            r@ == encode_sig(self@),
    {
        proof {
            lemma_deep_view_bytes(&self.reveals);
            lemma_deep_view_bytes(&self.path);
            assert forall|i: int| 0 <= i < self.reveals@.len() implies
                (#[trigger] self.reveals@[i])@.len() == 32 by {
                assert(self.reveals.deep_view()[i].len() == 32);
            }
            assert forall|i: int| 0 <= i < self.path@.len() implies
                (#[trigger] self.path@[i])@.len() == 32 by {
                assert(self.path.deep_view()[i].len() == 32);
            }
        }
        let mut out: Vec<u8> = Vec::new();
        push_u64_le(&mut out, self.epoch);
        push_flat(&mut out, &self.reveals);
        push_flat(&mut out, &self.path);
        proof {
            assert(out@ =~= encode_sig(self@));
        }
        out
    }

    /// Parse from the canonical wire format; the path length is inferred
    /// from the total length, and any mismatch yields `DecodeError`.
    pub fn from_bytes(data: &Vec<u8>) -> (r: Result<Signature, SigError>)
        ensures
            r is Ok <==> decode_sig(data@) is Some,
            r matches Ok(sig) ==> sig@ == decode_sig(data@).unwrap() && sig_wf(sig@),
            r matches Err(e) ==> e == SigError::DecodeError,
    {
        let n = data.len();
        if n < 2184 || (n - 2184) % 32 != 0 || (n - 2184) / 32 > 31 {
            return Err(SigError::DecodeError);
        }
        let epoch = read_u64_le(data, 0);
        let mut reveals: Vec<Vec<u8>> = Vec::new();
        let mut j: usize = 0;
        while j < 68
            invariant
                j <= 68,
                n == data@.len(),
                n >= 2184,
                reveals@.len() == j,
                forall|k: int| 0 <= k < j ==>
                    (#[trigger] reveals@[k])@ == data@.subrange(8 + 32 * k, 8 + 32 * k + 32),
                forall|k: int| 0 <= k < j ==> (#[trigger] reveals@[k])@.len() == 32,
            decreases 68 - j,
        {
            reveals.push(read_digest(data, 8 + 32 * j));
            j = j + 1;
        }
        let plen = (n - 2184) / 32;
        let mut path: Vec<Vec<u8>> = Vec::new();
        let mut l: usize = 0;
        while l < plen
            invariant
                l <= plen,
                n == data@.len(),
                n >= 2184,
                plen == (n - 2184) / 32,
                (n - 2184) % 32 == 0,
                path@.len() == l,
                forall|k: int| 0 <= k < l ==>
                    (#[trigger] path@[k])@ == data@.subrange(2184 + 32 * k, 2184 + 32 * k + 32),
                forall|k: int| 0 <= k < l ==> (#[trigger] path@[k])@.len() == 32,
            decreases plen - l,
        {
            proof {
                assert(32 * (l + 1) <= 32 * plen);
                assert(32 * plen == n - 2184);
            }
            path.push(read_digest(data, 2184 + 32 * l));
            l = l + 1;
        }
        let sig = Signature { epoch, reveals, path };
        proof {
            lemma_deep_view_bytes(&sig.reveals);
            lemma_deep_view_bytes(&sig.path);
            assert(decode_sig(data@) is Some);
            assert(sig@.reveals =~= decode_sig(data@).unwrap().reveals);
            assert(sig@.path =~= decode_sig(data@).unwrap().path);
            assert(sig@ =~= decode_sig(data@).unwrap());
        }
        Ok(sig)
    }

    /// Total serialized length of this signature.
    pub fn byte_len(&self) -> (r: usize)
        requires
            sig_wf(self@),
        ensures
            r == encode_sig(self@).len(),
    {
        proof {
            lemma_flat_prefix_len(self@.reveals, 68);
            lemma_flat_prefix_len(self@.path, self@.path.len() as nat);
            lemma_deep_view_bytes(&self.path);
        }
        2184 + 32 * self.path.len()
    }
}

impl SecretKey {
    /// Start of the prepared window.
    pub fn get_prepared_start(&self) -> (r: u64)
        ensures
            r == self.prepared_start,
    {
        self.prepared_start
    }

    /// End of the prepared window.
    pub fn get_prepared_end(&self) -> (r: u64)
        ensures
            r == self.prepared_end,
    {
        self.prepared_end
    }

    /// The view-level effect of `advance(target)`: a valid target extends
/// the window with fresh present units; an invalid one changes nothing.
pub open spec fn advance_result(v: SecretKeyView, target: u64) -> SecretKeyView {
    if v.prepared_end <= target <= v.params.lifetime {
        SecretKeyView {
            prepared_end: target,
            present: v.present + Seq::new((target - v.prepared_end) as nat, |i: int| true),
            ..v
        }
    } else {
        v
    }
}

/// Is `epoch` inside the prepared window?
    pub fn is_prepared_for_epoch(&self, epoch: u64) -> (r: bool)
        ensures
            r == in_window(self@, epoch),
    {
        epoch >= self.prepared_start && epoch < self.prepared_end
    }

    /// Serialize to the canonical wire format. The consumption state of
    /// the window does not travel: only the derivation state and the
    /// window bounds do.
    pub fn to_bytes(&self) -> (r: Vec<u8>)
        requires
            sk_wf(*self),
        ensures
            r@ == encode_sk(self@),
    {
        let mut out: Vec<u8> = Vec::new();
        out.push(family_id_byte(self.params.family));
        push_u64_le(&mut out, self.params.lifetime);
        push_all(&mut out, &self.seed);
        push_u64_le(&mut out, self.prepared_start);
        push_u64_le(&mut out, self.prepared_end);
        proof {
            assert(out@ =~= encode_sk(self@));
        }
        out
    }

    /// Parse from the canonical wire format and re-derive the window
    /// arena and leaf cache; every unit of the window comes back present.
    pub fn from_bytes(data: &Vec<u8>) -> (r: Result<SecretKey, SigError>)
        ensures
            r is Ok <==> decode_sk(data@) is Some,
            r matches Ok(sk) ==> sk@ == decode_sk(data@).unwrap() && sk_wf(sk),
            r matches Err(e) ==> e == SigError::DecodeError,
    {
        if data.len() != 57 {
            return Err(SigError::DecodeError);
        }
        let fb = data[0];
        if fb != 1 && fb != 2 {
            return Err(SigError::DecodeError);
        }
        let family = if fb == 1 { HashFamily::Sha3 } else { HashFamily::Keccak };
        let lifetime = read_u64_le(data, 1);
        if lifetime < 1 || lifetime > MAX_LIFETIME {
            return Err(SigError::DecodeError);
        }
        let seed = read_digest(data, 9);
        let start = read_u64_le(data, 41);
        let end = read_u64_le(data, 49);
        if start > end || end > lifetime {
            return Err(SigError::DecodeError);
        }
        let units = build_units(family, &seed, start, end);
        let leaves = build_leaves(family, &seed, lifetime);
        let sk = SecretKey {
            params: Params { family, lifetime },
            seed,
            prepared_start: start,
            prepared_end: end,
            units,
            leaves,
        };
        proof {
            assert(decode_sk(data@) is Some);
            assert(sk@.present =~= decode_sk(data@).unwrap().present);
            assert(sk@ =~= decode_sk(data@).unwrap());
            assert(forall|i: int| 0 <= i < sk.units@.len() ==>
                ((#[trigger] sk.units@[i]) matches Some(u) ==>
                    u.deep_view() == unit_secrets(sk.params.family, sk.seed@,
                        (sk.prepared_start + i) as u64)));
            assert(forall|i: int, j: int| 0 <= i < sk.units@.len() && 0 <= j < 68
                && sk.units@[i] is Some ==>
                    sk.units@[i].unwrap()@.len() == 68
                        && (#[trigger] sk.units@[i].unwrap()@[j])@.len() == 32);
        }
        Ok(sk)
    }

    /// Extend the prepared window to `target_end`, deriving every unit in
    /// `[prepared_end, target_end)`. Rejected with `InvalidWindow` if the
    /// target would shrink the window or pass the lifetime; a rejected
    /// call leaves the key unchanged.
    pub fn advance(&mut self, target_end: u64) -> (r: Result<(), SigError>)
        requires
            sk_wf(*old(self)),
        ensures
            sk_wf(*final(self)),
            r is Ok <==> (old(self).prepared_end <= target_end <= old(self).params.lifetime),
            r is Err ==> final(self)@ == old(self)@
                && (r matches Err(e) ==> e == SigError::InvalidWindow),
            r is Ok ==> final(self)@ == (SecretKeyView {
                prepared_end: target_end,
                present: old(self)@.present
                    + Seq::new((target_end - old(self).prepared_end) as nat, |i: int| true),
                ..old(self)@
            }),
            final(self).prepared_end >= old(self).prepared_end,
            final(self).prepared_start == old(self).prepared_start,
            final(self).prepared_end <= final(self).params.lifetime,
            final(self)@ == advance_result(old(self)@, target_end),
    {
        if target_end > self.params.lifetime || target_end < self.prepared_end {
            proof {
                assert(self@ =~= old(self)@);
            }
            return Err(SigError::InvalidWindow);
        }
        let ghost orig = old(self).units@.len() as int;
        let count = (target_end - self.prepared_end) as usize;
        let mut i: usize = 0;
        while i < count
            invariant
                count == target_end - old(self).prepared_end,
                i <= count,
                sk_wf(*old(self)),
                self.params == old(self).params,
                self.seed@ == old(self).seed@,
                self.prepared_start == old(self).prepared_start,
                self.prepared_end == old(self).prepared_end,
                self.leaves == old(self).leaves,
                orig == old(self).units@.len(),
                old(self).prepared_end <= target_end <= old(self).params.lifetime,
                self.units@.len() == orig + i,
                forall|k: int| 0 <= k < orig ==>
                    #[trigger] self.units@[k] == old(self).units@[k],
                forall|k: int| orig <= k < self.units@.len() ==> (#[trigger] self.units@[k]) is Some,
                forall|k: int| orig <= k < self.units@.len() ==>
                    ((#[trigger] self.units@[k]) matches Some(u) ==>
                        u.deep_view() == unit_secrets(old(self).params.family, old(self).seed@,
                            (old(self).prepared_end + (k - orig)) as u64)),
                forall|k: int, j: int| orig <= k < self.units@.len() && 0 <= j < 68 ==>
                    self.units@[k].unwrap()@.len() == 68
                        && (#[trigger] self.units@[k].unwrap()@[j])@.len() == 32,
            decreases count - i,
        {
            let epoch = self.prepared_end + i as u64;
            let u = derive_unit(self.params.family, &self.seed, epoch);
            self.units.push(Some(u));
            i = i + 1;
        }
        self.prepared_end = target_end;
        proof {
            assert forall|k: int| 0 <= k < self.units@.len() implies
                ((#[trigger] self.units@[k]) matches Some(u) ==>
                    u.deep_view() == unit_secrets(self.params.family, self.seed@,
                        (self.prepared_start + k) as u64)) by {
                if k < orig {
                    assert(self.units@[k] == old(self).units@[k]);
                }
            }
            assert(self@.present =~= old(self)@.present
                + Seq::new((target_end - old(self).prepared_end) as nat, |k: int| true));
            assert(self@ =~= (SecretKeyView {
                prepared_end: target_end,
                present: old(self)@.present
                    + Seq::new((target_end - old(self).prepared_end) as nat, |k: int| true),
                ..old(self)@
            }));
            assert forall|k: int, j: int| 0 <= k < self.units@.len() && 0 <= j < 68
                && self.units@[k] is Some implies
                    self.units@[k].unwrap()@.len() == 68
                        && (#[trigger] self.units@[k].unwrap()@[j])@.len() == 32 by {
                if k < orig {
                    assert(self.units@[k] == old(self).units@[k]);
                    assert(old(self).units@[k].unwrap()@[j]@.len() == 32);
                }
            }
        }
        Ok(())
    }

    /// Extend the prepared window by the default step, capped at the
    /// lifetime. This is the background-task entry point; it never fails.
    pub fn advance_preparation(&mut self) -> (r: Result<(), SigError>)
        requires
            sk_wf(*old(self)),
        ensures
            sk_wf(*final(self)),
            r is Ok,
            final(self).prepared_start == old(self).prepared_start,
            final(self).prepared_end == (
                if old(self).prepared_end + DEFAULT_WINDOW_STEP <= old(self).params.lifetime {
                    (old(self).prepared_end + DEFAULT_WINDOW_STEP) as u64
                } else {
                    old(self).params.lifetime
                }
            ),
            final(self)@.seed == old(self)@.seed,
            final(self)@.params == old(self)@.params,
    {
        let target: u64 = if self.params.lifetime >= DEFAULT_WINDOW_STEP
            && self.prepared_end <= self.params.lifetime - DEFAULT_WINDOW_STEP {
            self.prepared_end + DEFAULT_WINDOW_STEP
        } else {
            self.params.lifetime
        };
        let r = self.advance(target);
        proof {
            assert(r is Ok);
        }
        r
    }
}

} // verus!
