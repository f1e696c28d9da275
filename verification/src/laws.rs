//! The scheme's laws, stated over the mathematical views and proved from
//! the contracts in the rest of the crate.

use vstd::prelude::*;
use vstd::arithmetic::div_mod::{lemma_div_basics, lemma_div_by_multiple, lemma_mod_multiples_basic};
use crate::params::{HashFamily, Params, SigError};
use crate::merkle::{pow2, depth_for, auth_path, root_from_path, node_hash, lemma_depth_covers, lemma_root_from_path};
use crate::ots::{msg_digest, reveals_for, leaf_from_reveals, lemma_reveals_rebuild_leaf};
use crate::keys::{PublicKeyView, SecretKeyView, SignatureView, SecretKey, Signature, pk_wf, sig_wf, sk_view_wf, in_window, unit_present, advance_result, leaf_at, leaf_seq, root_spec, encode_pk, decode_pk, encode_sk, decode_sk, encode_sig, decode_sig};
use crate::codec::{u64_le, flat_prefix, lemma_u64_le_round_trip, lemma_flat_prefix_len, lemma_flat_prefix_index};
use crate::scheme::{sign_spec, verify_spec, sign_post};

verus! {

/// Sign–verify soundness: a signature honestly derived from a seed, for
/// an epoch inside the lifetime, verifies against the public key whose
/// root was aggregated from the same seed. The two length hypotheses
/// hold of every digest the hash backend actually returns.
pub proof fn lemma_sign_verify_sound(f: HashFamily, seed: Seq<u8>, lifetime: u64, epoch: u64, m: Seq<u8>)
    requires
        epoch < lifetime,
        forall|j: int| 0 <= j < 68 ==> #[trigger] reveals_for(f, seed, epoch, m)[j].len() == 32,
        forall|l: int| 0 <= l < depth_for(lifetime as nat) ==>
            #[trigger] auth_path(f, leaf_seq(f, seed, lifetime), depth_for(lifetime as nat),
                epoch as nat)[l].len() == 32,
    ensures
        verify_spec(
            PublicKeyView {
                params: Params { family: f, lifetime },
                root: root_spec(f, seed, lifetime),
            },
            epoch,
            m,
            sign_spec(f, seed, lifetime, epoch, m),
        ),
{
    let d = depth_for(lifetime as nat);
    let leaves = leaf_seq(f, seed, lifetime);
    let sig = sign_spec(f, seed, lifetime, epoch, m);
    lemma_reveals_rebuild_leaf(f, seed, epoch, m);
    assert(leaf_from_reveals(f, msg_digest(f, m), sig.reveals)
        == leaf_at(f, seed, lifetime, epoch as nat));
    lemma_depth_covers(lifetime as nat);
    lemma_root_from_path(f, leaves, d, epoch as nat, 0);
    assert(pow2(0nat) == 1);
    lemma_div_basics(epoch as int);
    assert((epoch as nat) / pow2(0nat) == epoch as nat);
    assert(auth_path(f, leaves, d, epoch as nat).skip(0) =~= auth_path(f, leaves, d, epoch as nat));
    assert(node_hash(f, leaves, 0, epoch as nat) == leaves[epoch as int]);
    assert(root_from_path(f, leaf_from_reveals(f, msg_digest(f, m), sig.reveals), epoch as nat,
        sig.path) == root_spec(f, seed, lifetime));
}

/// Sign–verify soundness at the contract level: whenever `sign`
/// succeeds, the signature it returned verifies against the public key
/// generated from the same secret key.
pub proof fn lemma_sign_then_verify(old_sk: SecretKey, new_sk: SecretKey, pk: PublicKeyView, epoch: u64, m: Seq<u8>, r: Result<Signature, SigError>)
    requires
        sign_post(old_sk, new_sk, epoch, m, r),
        r is Ok,
        pk.params == old_sk.params,
        pk.root == root_spec(old_sk.params.family, old_sk@.seed, old_sk.params.lifetime),
    ensures
        verify_spec(pk, epoch, m, r.unwrap()@),
{
    let f = old_sk.params.family;
    let lifetime = old_sk.params.lifetime;
    let sv = r.unwrap()@;
    assert(sv == sign_spec(f, old_sk@.seed, lifetime, epoch, m));
    assert(sig_wf(sv));
    assert(epoch < lifetime);
    assert(sv.path.len() == depth_for(lifetime as nat));
    lemma_sign_verify_sound(f, old_sk@.seed, lifetime, epoch, m);
}

/// Cross-epoch rejection: a signature bound to one epoch never verifies
/// when presented for a different epoch, whatever the key, messages, or
/// seed.
pub proof fn lemma_cross_epoch_reject(pk: PublicKeyView, f: HashFamily, seed: Seq<u8>, lifetime: u64, epoch: u64, epoch2: u64, m: Seq<u8>, m2: Seq<u8>)
    requires
        epoch2 != epoch,
    ensures
        !verify_spec(pk, epoch2, m2, sign_spec(f, seed, lifetime, epoch, m)),
{
}

/// Window discipline: a sign call for an epoch outside the prepared
/// window is rejected with `EpochNotPrepared` and changes nothing.
pub proof fn lemma_window_discipline(old_sk: SecretKey, new_sk: SecretKey, epoch: u64, m: Seq<u8>, r: Result<Signature, SigError>)
    requires
        sign_post(old_sk, new_sk, epoch, m, r),
        epoch < old_sk@.prepared_start || epoch >= old_sk@.prepared_end,
    ensures
        r matches Err(e) && e == SigError::EpochNotPrepared,
        new_sk@ == old_sk@,
{
}

/// One-time enforcement: after a successful signature for an epoch, a
/// second sign call on the same key for the same epoch is rejected with
/// `EpochAlreadyUsed` and changes nothing.
pub proof fn lemma_one_time_enforcement(sk0: SecretKey, sk1: SecretKey, sk2: SecretKey, epoch: u64, m1: Seq<u8>, m2: Seq<u8>, r1: Result<Signature, SigError>, r2: Result<Signature, SigError>)
    requires
        sk_view_wf(sk0@),
        sign_post(sk0, sk1, epoch, m1, r1),
        sign_post(sk1, sk2, epoch, m2, r2),
        r1 is Ok,
    ensures
        r2 matches Err(e) && e == SigError::EpochAlreadyUsed,
        sk2@ == sk1@,
{
    assert(unit_present(sk0@, epoch));
    let idx = epoch - sk0@.prepared_start;
    assert(sk1@.present == sk0@.present.update(idx, false));
    assert(0 <= idx < sk0@.present.len());
    assert(sk0@.present.update(idx, false)[idx] == false);
    assert(sk1@.prepared_start == sk0@.prepared_start);
    assert(!sk1@.present[epoch - sk1@.prepared_start]);
    assert(in_window(sk1@, epoch));
    assert(!unit_present(sk1@, epoch));
}

/// The window after any sequence of `advance` requests.
pub open spec fn advance_all(v: SecretKeyView, targets: Seq<u64>) -> SecretKeyView
    decreases targets.len(),
{
    if targets.len() == 0 {
        v
    } else {
        advance_all(advance_result(v, targets[0]), targets.skip(1))
    }
}

/// Window monotonicity: after any sequence of `advance` requests the
/// window's end is non-decreasing, never exceeds the lifetime, and the
/// start and parameters are untouched.
pub proof fn lemma_window_monotonic(v: SecretKeyView, targets: Seq<u64>)
    requires
        v.prepared_end <= v.params.lifetime,
    ensures
        advance_all(v, targets).prepared_end >= v.prepared_end,
        advance_all(v, targets).prepared_end <= v.params.lifetime,
        advance_all(v, targets).prepared_start == v.prepared_start,
        advance_all(v, targets).params == v.params,
    decreases targets.len(),
{
    if targets.len() > 0 {
        lemma_window_monotonic(advance_result(v, targets[0]), targets.skip(1));
    }
}

/// Round trip of the public key wire format.
pub proof fn lemma_pk_round_trip(v: PublicKeyView)
    requires
        pk_wf(v),
    ensures
        decode_pk(encode_pk(v)) == Some(v),
{
    let b = encode_pk(v);
    assert(b.len() == 41);
    assert(b[0] == crate::params::family_id(v.params.family));
    assert(b.subrange(1, 9) =~= u64_le(v.params.lifetime));
    lemma_u64_le_round_trip(v.params.lifetime);
    assert(crate::keys::decode_params(b) == Some(v.params));
    assert(b.subrange(9, 41) =~= v.root);
    assert(decode_pk(b).unwrap() =~= v);
}

/// Round trip of the signature wire format.
pub proof fn lemma_sig_round_trip(v: SignatureView)
    requires
        sig_wf(v),
    ensures
        decode_sig(encode_sig(v)) == Some(v),
{
    let b = encode_sig(v);
    let n = v.path.len() as int;
    lemma_flat_prefix_len(v.reveals, 68);
    lemma_flat_prefix_len(v.path, v.path.len() as nat);
    assert(b.len() == 2184 + 32 * n);
    lemma_mod_multiples_basic(n, 32);
    assert((b.len() - 2184) % 32 == 0) by {
        assert(b.len() - 2184 == n * 32);
    }
    lemma_div_by_multiple(n, 32);
    assert((b.len() - 2184) as int / 32 == n) by {
        assert(b.len() - 2184 == n * 32);
    }
    assert(b.subrange(0, 8) =~= u64_le(v.epoch));
    lemma_u64_le_round_trip(v.epoch);
    let dec = decode_sig(b).unwrap();
    assert forall|j: int| 0 <= j < 68 implies dec.reveals[j] == v.reveals[j] by {
        lemma_flat_prefix_index(v.reveals, 68, j as nat);
        assert(b.subrange(8 + 32 * j, 8 + 32 * j + 32)
            =~= flat_prefix(v.reveals, 68).subrange(32 * j, 32 * j + 32));
    }
    assert(dec.reveals =~= v.reveals);
    assert forall|l: int| 0 <= l < n implies dec.path[l] == v.path[l] by {
        lemma_flat_prefix_index(v.path, v.path.len() as nat, l as nat);
        assert(b.subrange(2184 + 32 * l, 2184 + 32 * l + 32)
            =~= flat_prefix(v.path, v.path.len() as nat).subrange(32 * l, 32 * l + 32));
    }
    assert(dec.path =~= v.path);
    assert(dec =~= v);
}

/// Round trip of the secret key wire format, for a key none of whose
/// window units has been consumed. Consumption state does not travel
/// through the wire format, so a key with consumed in-window epochs
/// comes back with those units re-derived and present.
pub proof fn lemma_sk_round_trip(v: SecretKeyView)
    requires
        sk_view_wf(v),
        forall|i: int| 0 <= i < v.present.len() ==> #[trigger] v.present[i],
    ensures
        decode_sk(encode_sk(v)) == Some(v),
{
    let b = encode_sk(v);
    assert(b.len() == 57);
    assert(b[0] == crate::params::family_id(v.params.family));
    assert(b.subrange(1, 9) =~= u64_le(v.params.lifetime));
    lemma_u64_le_round_trip(v.params.lifetime);
    assert(crate::keys::decode_params(b) == Some(v.params));
    assert(b.subrange(9, 41) =~= v.seed);
    assert(b.subrange(41, 49) =~= u64_le(v.prepared_start));
    lemma_u64_le_round_trip(v.prepared_start);
    assert(b.subrange(49, 57) =~= u64_le(v.prepared_end));
    lemma_u64_le_round_trip(v.prepared_end);
    let dec = decode_sk(b).unwrap();
    assert(dec.present =~= v.present);
    assert(dec =~= v);
}

} // verus!
