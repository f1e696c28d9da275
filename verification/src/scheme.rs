//! The signer, the verifier, key generation, and the two scheme
//! instantiations over the hash-family capability.

use vstd::prelude::*;
use vstd::arithmetic::div_mod::{lemma_div_denominator, lemma_fundamental_div_mod, lemma_multiply_divide_lt};
use crate::params::{HashFamily, Params, SigError, params_wf, MAX_LIFETIME, DEFAULT_LIFETIME, DEFAULT_WINDOW_STEP};
use crate::hash::{DOM_SEED, digest_bytes, push_all, os_random_bytes};
use crate::codec::{bytes_eq, all_len32, lemma_deep_view_bytes};
use crate::merkle::{pow2, depth_for, auth_path, sib_index, root_from_path, node_hash, compute_depth, compute_node, combine_nodes, lemma_pow2_pos, lemma_pow2_add, lemma_depth_covers};
use crate::ots::{msg_digest, reveals_for, leaf_from_reveals, ends_from_reveals, unit_secrets, hash_message, compute_digits, walk_all, hash_ends};
use crate::keys::{PublicKey, PublicKeyView, SecretKey, SecretKeyView, Signature, SignatureView, pk_wf, sk_wf, sig_wf, in_window, unit_present, master_seed_of, leaf_seq, root_spec, build_leaves, build_units};

verus! {

/// The signature an honest signer produces for `(epoch, m)` from a key
/// with master seed `seed`.
pub open spec fn sign_spec(f: HashFamily, seed: Seq<u8>, lifetime: u64, epoch: u64, m: Seq<u8>) -> SignatureView {
    SignatureView {
        epoch,
        reveals: reveals_for(f, seed, epoch, m),
        path: auth_path(f, leaf_seq(f, seed, lifetime), depth_for(lifetime as nat), epoch as nat),
    }
}

/// Pure validity of a signature against a public key, an epoch, and a
/// message: the epoch matches and is in range, the fields have the right
/// shape, and folding the recomputed leaf up the path reproduces the
/// root.
pub open spec fn verify_spec(pk: PublicKeyView, epoch: u64, m: Seq<u8>, sig: SignatureView) -> bool {
    &&& sig.epoch == epoch
    &&& epoch < pk.params.lifetime
    &&& sig.reveals.len() == 68
    &&& (forall|j: int| 0 <= j < 68 ==> #[trigger] sig.reveals[j].len() == 32)
    &&& sig.path.len() == depth_for(pk.params.lifetime as nat)
    &&& (forall|l: int| 0 <= l < sig.path.len() ==> #[trigger] sig.path[l].len() == 32)
    &&& root_from_path(
            pk.params.family,
            leaf_from_reveals(pk.params.family, msg_digest(pk.params.family, m), sig.reveals),
            epoch as nat,
            sig.path,
        ) == pk.root
}

/// Everything key generation promises of a freshly produced pair.
pub open spec fn key_pair_wf(pk: PublicKey, sk: SecretKey, params: Params, activation_epoch: u64) -> bool {
    &&& pk.params == params
    &&& sk.params == params
    &&& pk_wf(pk@)
    &&& sk_wf(sk)
    &&& pk@.root == root_spec(params.family, sk@.seed, params.lifetime)
    &&& sk@.prepared_start == activation_epoch
    &&& sk@.prepared_end == (
        if activation_epoch + DEFAULT_WINDOW_STEP <= params.lifetime {
            (activation_epoch + DEFAULT_WINDOW_STEP) as u64
        } else {
            params.lifetime
        }
    )
    &&& forall|i: int| 0 <= i < sk@.present.len() ==> #[trigger] sk@.present[i]
}

/// The full contract of key generation.
pub open spec fn key_gen_post(params: Params, seed_input: Option<Vec<u8>>, activation_epoch: u64, r: Result<(PublicKey, SecretKey), SigError>) -> bool {
    &&& (activation_epoch >= params.lifetime ==>
            (r matches Err(e) && e == SigError::EpochOutOfRange))
    &&& (activation_epoch < params.lifetime && seed_input is Some ==> r is Ok)
    &&& (r matches Err(e) ==>
            e == SigError::EpochOutOfRange || e == SigError::RandomnessUnavailable)
    &&& (r is Ok ==> activation_epoch < params.lifetime)
    &&& (r matches Ok(pair) ==> key_pair_wf(pair.0, pair.1, params, activation_epoch))
    &&& (r matches Ok(pair) ==> (seed_input matches Some(s) ==>
            pair.1@.seed == master_seed_of(params.family, s@)))
}

/// The full contract of signing: exactly when each error comes, and
/// exactly what a produced signature and the consumed window look like.
pub open spec fn sign_post(old_sk: SecretKey, new_sk: SecretKey, epoch: u64, m: Seq<u8>, r: Result<Signature, SigError>) -> bool {
    &&& sk_wf(new_sk)
    &&& new_sk.params == old_sk.params
    &&& new_sk@.seed == old_sk@.seed
    &&& new_sk@.prepared_start == old_sk@.prepared_start
    &&& new_sk@.prepared_end == old_sk@.prepared_end
    &&& (!in_window(old_sk@, epoch) ==>
            (r matches Err(e) && e == SigError::EpochNotPrepared) && new_sk@ == old_sk@)
    &&& (in_window(old_sk@, epoch) && !unit_present(old_sk@, epoch) ==>
            (r matches Err(e) && e == SigError::EpochAlreadyUsed) && new_sk@ == old_sk@)
    &&& (unit_present(old_sk@, epoch) ==> r is Ok)
    &&& (r matches Ok(sig) ==> {
            &&& unit_present(old_sk@, epoch)
            &&& sig@ == sign_spec(old_sk.params.family, old_sk@.seed, old_sk.params.lifetime, epoch, m)
            &&& sig_wf(sig@)
            &&& new_sk@ == (SecretKeyView {
                present: old_sk@.present.update(epoch - old_sk@.prepared_start, false),
                ..old_sk@
            })
        })
}

/// Generate a key pair under `params`. With a caller-provided seed the
/// result is a deterministic function of the seed; without one the seed
/// comes from the operating system's entropy source.
pub fn key_gen_core(params: Params, seed_input: Option<Vec<u8>>, activation_epoch: u64) -> (r: Result<(PublicKey, SecretKey), SigError>)
    requires
        params_wf(params),
    ensures
        key_gen_post(params, seed_input, activation_epoch, r),
{
    if activation_epoch >= params.lifetime {
        return Err(SigError::EpochOutOfRange);
    }
    let user_seed: Vec<u8> = match seed_input {
        Some(s) => s,
        None => {
            match os_random_bytes() {
                Some(b) => b,
                None => {
                    return Err(SigError::RandomnessUnavailable);
                },
            }
        },
    };
    let mut inp: Vec<u8> = Vec::new();
    inp.push(DOM_SEED);
    push_all(&mut inp, &user_seed);
    proof {
        assert(inp@ =~= seq![DOM_SEED] + user_seed@);
    }
    let master = digest_bytes(params.family, &inp);
    let leaves = build_leaves(params.family, &master, params.lifetime);
    let d = compute_depth(params.lifetime);
    proof {
        lemma_pow2_pos(d as nat);
        assert((0 + 1) * pow2(d as nat) == pow2(d as nat)) by (nonlinear_arith);
    }
    let root = compute_node(params.family, &leaves, d, 0);
    let end0: u64 = if activation_epoch + DEFAULT_WINDOW_STEP <= params.lifetime {
        activation_epoch + DEFAULT_WINDOW_STEP
    } else {
        params.lifetime
    };
    let units = build_units(params.family, &master, activation_epoch, end0);
    let pk = PublicKey { params, root };
    let sk = SecretKey {
        params,
        seed: master,
        prepared_start: activation_epoch,
        prepared_end: end0,
        units,
        leaves,
    };
    proof {
        assert(pk@.root == root_spec(params.family, sk@.seed, params.lifetime));
        assert(crate::keys::sk_view_wf(sk@));
        assert(sk.units@.len() == sk.prepared_end - sk.prepared_start);
        assert(forall|i: int| 0 <= i < sk.units@.len() ==>
            ((#[trigger] sk.units@[i]) matches Some(u) ==>
                u.deep_view() == unit_secrets(sk.params.family, sk.seed@,
                    (sk.prepared_start + i) as u64)));
        assert(forall|i: int, j: int| 0 <= i < sk.units@.len() && 0 <= j < 68
            && sk.units@[i] is Some ==>
                sk.units@[i].unwrap()@.len() == 68
                    && (#[trigger] sk.units@[i].unwrap()@[j])@.len() == 32);
        assert(sk.leaves.deep_view() == leaf_seq(sk.params.family, sk.seed@, sk.params.lifetime));
        assert(forall|i: int| 0 <= i < sk.leaves@.len() ==> (#[trigger] sk.leaves@[i])@.len() == 32);
        assert(sk_wf(sk));
        assert(pk_wf(pk@));
    }
    Ok((pk, sk))
}

/// Compute the authentication path of `e` from the cached leaves.
pub fn compute_path(f: HashFamily, leaves: &Vec<Vec<u8>>, d: u64, e: u64) -> (r: Vec<Vec<u8>>)
    requires
        d <= 31,
        leaves@.len() == pow2(d as nat),
        e < pow2(d as nat),
        forall|i: int| 0 <= i < leaves@.len() ==> (#[trigger] leaves@[i])@.len() == 32,
    ensures
        r.deep_view() == auth_path(f, leaves.deep_view(), d as nat, e as nat),
        r@.len() == d,
        forall|l: int| 0 <= l < r@.len() ==> (#[trigger] r@[l])@.len() == 32,
{
    proof {
        assert(pow2(0nat) == 1);
        vstd::arithmetic::div_mod::lemma_div_basics(e as int);
    }
    let mut r: Vec<Vec<u8>> = Vec::new();
    let mut idx: u64 = e;
    let mut l: u64 = 0;
    while l < d
        invariant
            d <= 31,
            leaves@.len() == pow2(d as nat),
            e < pow2(d as nat),
            l <= d,
            idx as nat == (e as nat) / pow2(l as nat),
            r@.len() == l,
            forall|k: int| 0 <= k < l ==>
                (#[trigger] r@[k])@ == node_hash(f, leaves.deep_view(), k as nat, sib_index(e as nat, k as nat)),
            forall|k: int| 0 <= k < l ==> (#[trigger] r@[k])@.len() == 32,
            forall|i: int| 0 <= i < leaves@.len() ==> (#[trigger] leaves@[i])@.len() == 32,
        decreases d - l,
    {
        proof {
            lemma_pow2_add(l as nat, (d - l) as nat);
            lemma_pow2_pos(l as nat);
            lemma_pow2_pos((d - l) as nat);
            lemma_pow2_pos((d - l - 1) as nat);
            lemma_multiply_divide_lt(e as int, pow2(l as nat) as int, pow2((d - l) as nat) as int);
            assert(idx < pow2((d - l) as nat));
            assert(pow2((d - l) as nat) == 2 * pow2((d - l - 1) as nat));
            lemma_fundamental_div_mod(idx as int, 2);
            lemma_multiply_divide_lt(idx as int, 2, pow2((d - l - 1) as nat) as int);
        }
        let sib: u64 = if idx % 2 == 0 { idx + 1 } else { idx - 1 };
        proof {
            let ghost h = pow2((d - l - 1) as nat) as int;
            if idx % 2 == 0 {
                assert(idx as int == 2 * (idx as int / 2));
                assert(idx as int / 2 <= h - 1);
                assert(sib + 1 <= 2 * h);
            } else {
                assert(sib + 1 <= idx < 2 * h);
            }
            assert((sib + 1) * pow2(l as nat) <= pow2(d as nat)) by (nonlinear_arith)
                requires
                    sib + 1 <= pow2((d - l) as nat),
                    pow2(d as nat) == pow2(l as nat) * pow2((d - l) as nat),
                    pow2(l as nat) >= 1,
            ;
            assert(sib as nat == sib_index(e as nat, l as nat));
        }
        let node = compute_node(f, leaves, l, sib);
        proof {
            if l == 0 {
                assert(pow2(0nat) == 1);
                assert((sib + 1) * 1 == sib + 1) by (nonlinear_arith);
                assert(node@ == leaves@[sib as int]@);
            }
        }
        r.push(node);
        proof {
            lemma_div_denominator(e as int, pow2(l as nat) as int, 2);
            assert(pow2((l + 1) as nat) == 2 * pow2(l as nat));
            assert((idx / 2) as nat == (e as nat) / pow2((l + 1) as nat)) by {
                assert(pow2(l as nat) as int * 2 == pow2((l + 1) as nat) as int);
            }
        }
        idx = idx / 2;
        l = l + 1;
    }
    proof {
        lemma_deep_view_bytes(&r);
        assert(r.deep_view() =~= auth_path(f, leaves.deep_view(), d as nat, e as nat));
    }
    r
}

/// Fold a recomputed leaf up an authentication path.
pub fn fold_path(f: HashFamily, leaf: Vec<u8>, epoch: u64, path: &Vec<Vec<u8>>) -> (r: Vec<u8>)
    ensures
        r@ == root_from_path(f, leaf@, epoch as nat, path.deep_view()),
{
    let ghost leaf0 = leaf@;
    let ghost full = path.deep_view();
    proof {
        lemma_deep_view_bytes(path);
    }
    proof {
        assert(full.skip(0) =~= full);
    }
    let mut cur = leaf;
    let mut idx: u64 = epoch;
    let mut i: usize = 0;
    while i < path.len()
        invariant
            i <= path@.len(),
            full == path.deep_view(),
            full.len() == path@.len(),
            forall|k: int| 0 <= k < path@.len() ==> #[trigger] full[k] == path@[k]@,
            root_from_path(f, cur@, idx as nat, full.skip(i as int))
                == root_from_path(f, leaf0, epoch as nat, full),
        decreases path@.len() - i,
    {
        let ghost pre = full.skip(i as int);
        proof {
            assert(pre[0] == full[i as int]);
            assert(pre.skip(1) =~= full.skip(i as int + 1));
        }
        let next = if idx % 2 == 0 {
            combine_nodes(f, &cur, &path[i])
        } else {
            combine_nodes(f, &path[i], &cur)
        };
        cur = next;
        idx = idx / 2;
        i = i + 1;
    }
    proof {
        assert(full.skip(path@.len() as int) =~= Seq::<Seq<u8>>::empty());
    }
    cur
}

/// Sign `message` for `epoch`, consuming the epoch's one-time unit.
/// Rejected calls leave the key unchanged.
pub fn sign_core(sk: &mut SecretKey, epoch: u64, message: &Vec<u8>) -> (r: Result<Signature, SigError>)
    requires
        sk_wf(*old(sk)),
    ensures
        sign_post(*old(sk), *final(sk), epoch, message@, r),
{
    if epoch < sk.prepared_start || epoch >= sk.prepared_end {
        proof {
            assert(sk@ =~= old(sk)@);
        }
        return Err(SigError::EpochNotPrepared);
    }
    let i = (epoch - sk.prepared_start) as usize;
    if sk.units[i].is_none() {
        proof {
            assert(sk@ =~= old(sk)@);
            assert(!unit_present(old(sk)@, epoch));
        }
        return Err(SigError::EpochAlreadyUsed);
    }
    let f = sk.params.family;
    let dg = hash_message(f, message);
    let digits = compute_digits(&dg);
    let reveals = match &sk.units[i] {
        Some(u) => {
            proof {
                assert(sk.units@[i as int].unwrap()@[0]@.len() == 32);
                assert(u@.len() == 68);
                lemma_deep_view_bytes(u);
                assert((sk.prepared_start + i as int) as u64 == epoch);
                assert(u.deep_view() == unit_secrets(f, sk.seed@, epoch));
                assert forall|j: int| 0 <= j < 68 implies
                    (#[trigger] u@[j])@ == unit_secrets(f, sk.seed@, epoch)[j] by {
                    assert(u.deep_view()[j] == u@[j]@);
                }
            }
            walk_all(f, u, &digits)
        },
        None => {
            proof {
                assert(false);
            }
            return Err(SigError::EpochAlreadyUsed);
        },
    };
    let d = compute_depth(sk.params.lifetime);
    proof {
        lemma_depth_covers(sk.params.lifetime as nat);
        lemma_deep_view_bytes(&sk.leaves);
        assert(sk.leaves@.len() == leaf_seq(f, sk.seed@, sk.params.lifetime).len());
    }
    let path = compute_path(f, &sk.leaves, d, epoch);
    sk.units[i] = None;
    let sig = Signature { epoch, reveals, path };
    proof {
        lemma_deep_view_bytes(&sig.reveals);
        let sv = sign_spec(old(sk).params.family, old(sk)@.seed, old(sk).params.lifetime, epoch, message@);
        assert forall|j: int| 0 <= j < 68 implies sig@.reveals[j] == sv.reveals[j] by {
            assert(digits@[j] as nat == crate::ots::digit_at(dg@, j as nat));
            assert(sig.reveals@[j]@ == crate::hash::chain_digest(
                f,
                unit_secrets(f, old(sk)@.seed, epoch)[j],
                digits@[j] as nat,
            ));
        }
        assert(sig@.reveals =~= sv.reveals);
        assert(sig@.path =~= sv.path);
        assert(sig@ =~= sv);
        assert(sig_wf(sig@));
        assert(sk@.present =~= old(sk)@.present.update(epoch - old(sk)@.prepared_start, false));
        assert(sk@ =~= (SecretKeyView {
            present: old(sk)@.present.update(epoch - old(sk)@.prepared_start, false),
            ..old(sk)@
        }));
        assert forall|k: int| 0 <= k < sk.units@.len() implies
            ((#[trigger] sk.units@[k]) matches Some(u) ==>
                u.deep_view() == unit_secrets(sk.params.family, sk.seed@,
                    (sk.prepared_start + k) as u64)) by {
            if k != i as int {
                assert(sk.units@[k] == old(sk).units@[k]);
            }
        }
        assert forall|k: int, j: int| 0 <= k < sk.units@.len() && 0 <= j < 68
            && sk.units@[k] is Some implies
                sk.units@[k].unwrap()@.len() == 68
                    && (#[trigger] sk.units@[k].unwrap()@[j])@.len() == 32 by {
            if k != i as int {
                assert(sk.units@[k] == old(sk).units@[k]);
                assert(old(sk).units@[k].unwrap()@[j]@.len() == 32);
            }
        }
        assert(crate::keys::sk_view_wf(sk@));
        assert(sk.units@.len() == sk.prepared_end - sk.prepared_start);
        assert(sk.leaves.deep_view() == leaf_seq(sk.params.family, sk.seed@, sk.params.lifetime));
        assert(forall|k: int| 0 <= k < sk.leaves@.len() ==> (#[trigger] sk.leaves@[k])@.len() == 32);
        assert(forall|k: int| 0 <= k < sk.units@.len() ==>
            ((#[trigger] sk.units@[k]) matches Some(u) ==>
                u.deep_view() == unit_secrets(sk.params.family, sk.seed@,
                    (sk.prepared_start + k) as u64)));
        assert(forall|k: int, j: int| 0 <= k < sk.units@.len() && 0 <= j < 68
            && sk.units@[k] is Some ==>
                sk.units@[k].unwrap()@.len() == 68
                    && (#[trigger] sk.units@[k].unwrap()@[j])@.len() == 32);
        assert(sk_wf(*sk));
    }
    Ok(sig)
}

/// Verify a signature. Pure: a function of the four arguments alone,
/// touching no secret state; malformed shapes short-circuit to `false`
/// before any hashing.
pub fn verify_core(pk: &PublicKey, epoch: u64, message: &Vec<u8>, sig: &Signature) -> (r: bool)
    requires
        params_wf(pk.params),
    ensures
        r == verify_spec(pk@, epoch, message@, sig@),
{
    proof {
        lemma_deep_view_bytes(&sig.reveals);
        lemma_deep_view_bytes(&sig.path);
    }
    if sig.epoch != epoch {
        return false;
    }
    if epoch >= pk.params.lifetime {
        return false;
    }
    if sig.reveals.len() != 68 {
        return false;
    }
    if !all_len32(&sig.reveals) {
        proof {
            let ghost w = choose|i: int| 0 <= i < sig.reveals@.len()
                && (#[trigger] sig.reveals@[i])@.len() != 32;
            assert(sig@.reveals[w].len() != 32);
        }
        return false;
    }
    let d = compute_depth(pk.params.lifetime);
    if sig.path.len() != d as usize {
        return false;
    }
    if !all_len32(&sig.path) {
        proof {
            let ghost w = choose|i: int| 0 <= i < sig.path@.len()
                && (#[trigger] sig.path@[i])@.len() != 32;
            assert(sig@.path[w].len() != 32);
        }
        return false;
    }
    let f = pk.params.family;
    let dg = hash_message(f, message);
    let digits = compute_digits(&dg);
    let mut steps: Vec<u8> = Vec::new();
    let mut j: usize = 0;
    while j < 68
        invariant
            j <= 68,
            digits@.len() == 68,
            forall|k: int| 0 <= k < 68 ==> #[trigger] digits@[k] <= 3,
            forall|k: int| 0 <= k < 68 ==> #[trigger] digits@[k] as nat == crate::ots::digit_at(dg@, k as nat),
            steps@.len() == j,
            forall|k: int| 0 <= k < j ==>
                #[trigger] steps@[k] as nat == (3 - crate::ots::digit_at(dg@, k as nat)) as nat,
        decreases 68 - j,
    {
        steps.push(3 - digits[j]);
        j = j + 1;
    }
    let ends = walk_all(f, &sig.reveals, &steps);
    proof {
        lemma_deep_view_bytes(&ends);
        assert(ends.deep_view() =~= ends_from_reveals(f, dg@, sig@.reveals));
        assert forall|k: int| 0 <= k < 68 implies (#[trigger] ends@[k])@.len() == 32 by {
            if steps@[k] == 0 {
                assert(ends@[k]@ == sig.reveals@[k]@);
            }
        }
    }
    let leaf = hash_ends(f, &ends);
    let root2 = fold_path(f, leaf, epoch, &sig.path);
    bytes_eq(&root2, &pk.root)
}

/// Scheme instance over the SHA3-256 sponge family.
pub struct HashSigSHA3 {
    pub lifetime: u64,
}

/// Scheme instance over the second (permutation-style) family.
pub struct HashSigPoseidon {
    pub lifetime: u64,
}

impl HashSigSHA3 {
    /// The parameters this instance fixes at construction.
    pub open spec fn params_spec(&self) -> Params {
        Params { family: HashFamily::Sha3, lifetime: self.lifetime }
    }

    /// Build an instance; the lifetime defaults to about a million
    /// epochs.
    pub fn new(lifetime: Option<u64>) -> (r: Self)
        requires
            lifetime matches Some(l) ==> 1 <= l && l <= MAX_LIFETIME,
        ensures
            r.lifetime == (if lifetime is Some { lifetime.unwrap() } else { DEFAULT_LIFETIME }),
            params_wf(r.params_spec()),
    {
        HashSigSHA3 { lifetime: lifetime.unwrap_or(DEFAULT_LIFETIME) }
    }

    /// Generate a key pair, optionally from a caller-provided seed.
    pub fn key_gen(&self, seed: Option<Vec<u8>>, activation_epoch: u64) -> (r: Result<(PublicKey, SecretKey), SigError>)
        requires
            params_wf(self.params_spec()),
        ensures
            key_gen_post(self.params_spec(), seed, activation_epoch, r),
    {
        key_gen_core(Params { family: HashFamily::Sha3, lifetime: self.lifetime }, seed, activation_epoch)
    }

    /// Sign a message for an epoch, consuming that epoch's one-time
    /// unit.
    pub fn sign(&self, secret_key: &mut SecretKey, epoch: u64, message: &Vec<u8>) -> (r: Result<Signature, SigError>)
        requires
            sk_wf(*old(secret_key)),
        ensures
            sign_post(*old(secret_key), *final(secret_key), epoch, message@, r),
    {
        sign_core(secret_key, epoch, message)
    }

    /// Verify a signature against a public key, an epoch, and a message.
    pub fn verify(&self, public_key: &PublicKey, epoch: u64, message: &Vec<u8>, signature: &Signature) -> (r: bool)
        requires
            params_wf(public_key.params),
        ensures
            r == verify_spec(public_key@, epoch, message@, signature@),
    {
        verify_core(public_key, epoch, message, signature)
    }

    /// The number of epochs this instance supports.
    pub fn get_lifetime(&self) -> (r: u64)
        ensures
            r == self.lifetime,
    {
        self.lifetime
    }
}

impl HashSigPoseidon {
    /// The parameters this instance fixes at construction.
    pub open spec fn params_spec(&self) -> Params {
        Params { family: HashFamily::Keccak, lifetime: self.lifetime }
    }

    /// Build an instance; the lifetime defaults to about a million
    /// epochs.
    pub fn new(lifetime: Option<u64>) -> (r: Self)
        requires
            lifetime matches Some(l) ==> 1 <= l && l <= MAX_LIFETIME,
        ensures
            r.lifetime == (if lifetime is Some { lifetime.unwrap() } else { DEFAULT_LIFETIME }),
            params_wf(r.params_spec()),
    {
        HashSigPoseidon { lifetime: lifetime.unwrap_or(DEFAULT_LIFETIME) }
    }

    /// Generate a key pair, optionally from a caller-provided seed.
    pub fn key_gen(&self, seed: Option<Vec<u8>>, activation_epoch: u64) -> (r: Result<(PublicKey, SecretKey), SigError>)
        requires
            params_wf(self.params_spec()),
        ensures
            key_gen_post(self.params_spec(), seed, activation_epoch, r),
    {
        key_gen_core(Params { family: HashFamily::Keccak, lifetime: self.lifetime }, seed, activation_epoch)
    }

    /// Sign a message for an epoch, consuming that epoch's one-time
    /// unit.
    pub fn sign(&self, secret_key: &mut SecretKey, epoch: u64, message: &Vec<u8>) -> (r: Result<Signature, SigError>)
        requires
            sk_wf(*old(secret_key)),
        ensures
            sign_post(*old(secret_key), *final(secret_key), epoch, message@, r),
    {
        sign_core(secret_key, epoch, message)
    }

    /// Verify a signature against a public key, an epoch, and a message.
    pub fn verify(&self, public_key: &PublicKey, epoch: u64, message: &Vec<u8>, signature: &Signature) -> (r: bool)
        requires
            params_wf(public_key.params),
        ensures
            r == verify_spec(public_key@, epoch, message@, signature@),
    {
        verify_core(public_key, epoch, message, signature)
    }

    /// The number of epochs this instance supports.
    pub fn get_lifetime(&self) -> (r: u64)
        ensures
            r == self.lifetime,
    {
        self.lifetime
    }
}

} // verus!
