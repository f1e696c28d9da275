//! The commitment structure: a binary aggregation tree over per-epoch leaf
//! commitments. A fixed-size root stands in for every epoch; a signature
//! carries the authentication path from which a verifier recomputes it.

use vstd::prelude::*;
use vstd::arithmetic::div_mod::{lemma_basic_div, lemma_div_denominator, lemma_fundamental_div_mod};
use crate::params::HashFamily;
use crate::hash::{DOM_NODE, digest_of, digest_bytes, push_all};

verus! {

/// Two to the power `n`.
pub open spec fn pow2(n: nat) -> nat
    decreases n,
{
    if n == 0 {
        1nat
    } else {
        2 * pow2((n - 1) as nat)
    }
}

pub proof fn lemma_pow2_pos(n: nat)
    ensures
        pow2(n) >= 1,
    decreases n,
{
    if n > 0 {
        lemma_pow2_pos((n - 1) as nat);
    }
}

pub proof fn lemma_pow2_mono(a: nat, b: nat)
    requires
        a <= b,
    ensures
        pow2(a) <= pow2(b),
    decreases b,
{
    if a < b {
        lemma_pow2_mono(a, (b - 1) as nat);
        lemma_pow2_pos(a);
    }
}

/// Depth of the padded tree over `l` leaves: the least `d` with
/// `pow2(d) >= l`.
pub open spec fn depth_for(l: nat) -> nat
    decreases l,
{
    if l <= 1 {
        0
    } else {
        1 + depth_for(((l + 1) / 2) as nat)
    }
}

/// The padded tree covers all `l` epochs.
pub proof fn lemma_depth_covers(l: nat)
    ensures
        pow2(depth_for(l)) >= l,
    decreases l,
{
    if l > 1 {
        let h = ((l + 1) / 2) as nat;
        lemma_depth_covers(h);
        assert(2 * ((l + 1) / 2) >= l);
    }
}

/// The depth never exceeds any exponent whose power covers `l`.
pub proof fn lemma_depth_le(l: nat, k: nat)
    requires
        l <= pow2(k),
    ensures
        depth_for(l) <= k,
    decreases l,
{
    if l > 1 {
        if k == 0 {
            assert(false);
        } else {
            let h = ((l + 1) / 2) as nat;
            assert(l + 1 <= 2 * pow2((k - 1) as nat) + 1);
            assert(h <= pow2((k - 1) as nat));
            lemma_depth_le(h, (k - 1) as nat);
        }
    }
}

/// Powers of two multiply as exponents add.
pub proof fn lemma_pow2_add(a: nat, b: nat)
    ensures
        pow2(a + b) == pow2(a) * pow2(b),
    decreases a,
{
    if a == 0 {
        assert(pow2(0) == 1);
    } else {
        lemma_pow2_add((a - 1) as nat, b);
        assert(pow2(((a - 1) + b) as nat) == pow2((a - 1) as nat) * pow2(b));
        assert(2 * (pow2((a - 1) as nat) * pow2(b)) == (2 * pow2((a - 1) as nat)) * pow2(b))
            by (nonlinear_arith);
    }
}

/// Executable power of two.
pub fn compute_pow2(d: u64) -> (r: u64)
    requires
        d <= 31,
    ensures
        r as nat == pow2(d as nat),
        r <= 0x8000_0000,
    decreases d,
{
    proof {
        lemma_pow2_mono(d as nat, 31);
        assert(pow2(31) == 0x8000_0000) by {
            reveal_with_fuel(pow2, 32);
        }
    }
    if d == 0 {
        1
    } else {
        2 * compute_pow2(d - 1)
    }
}

/// Executable tree depth for a given leaf count.
pub fn compute_depth(l: u64) -> (d: u64)
    requires
        1 <= l <= 0x8000_0000,
    ensures
        d as nat == depth_for(l as nat),
        d <= 31,
    decreases l,
{
    proof {
        assert(pow2(31) == 0x8000_0000) by {
            reveal_with_fuel(pow2, 32);
        }
        lemma_depth_le(l as nat, 31);
    }
    if l <= 1 {
        0
    } else {
        1 + compute_depth((l + 1) / 2)
    }
}

/// Hash of two sibling nodes into their parent.
pub open spec fn combine(f: HashFamily, l: Seq<u8>, r: Seq<u8>) -> Seq<u8> {
    digest_of(f, seq![DOM_NODE] + l + r)
}

/// The digest of tree node `index` at height `level` over `leaves`
/// (level 0 is the leaves themselves).
pub open spec fn node_hash(f: HashFamily, leaves: Seq<Seq<u8>>, level: nat, index: nat) -> Seq<u8>
    decreases level,
{
    if level == 0 {
        leaves[index as int]
    } else {
        combine(
            f,
            node_hash(f, leaves, (level - 1) as nat, 2 * index),
            node_hash(f, leaves, (level - 1) as nat, 2 * index + 1),
        )
    }
}

/// Index of the sibling of `e`'s ancestor at height `level`.
pub open spec fn sib_index(e: nat, level: nat) -> nat {
    let i = e / pow2(level);
    if i % 2 == 0 {
        i + 1
    } else {
        (i - 1) as nat
    }
}

/// The authentication path of epoch `e` in a depth-`d` tree: the sibling
/// node at every height, leaves first.
pub open spec fn auth_path(f: HashFamily, leaves: Seq<Seq<u8>>, d: nat, e: nat) -> Seq<Seq<u8>> {
    Seq::new(d, |l: int| node_hash(f, leaves, l as nat, sib_index(e, l as nat)))
}

/// Fold a leaf digest up a path: at each step the current digest is
/// combined with the next sibling, on the side its index dictates.
pub open spec fn root_from_path(f: HashFamily, cur: Seq<u8>, idx: nat, path: Seq<Seq<u8>>) -> Seq<u8>
    decreases path.len(),
{
    if path.len() == 0 {
        cur
    } else {
        let up = if idx % 2 == 0 {
            combine(f, cur, path[0])
        } else {
            combine(f, path[0], cur)
        };
        root_from_path(f, up, idx / 2, path.skip(1))
    }
}

/// Folding the authentication path of any epoch from its own node upward
/// reproduces the root. Stated from an arbitrary height so it can be
/// proved by induction; callers use `level == 0`.
pub proof fn lemma_root_from_path(f: HashFamily, leaves: Seq<Seq<u8>>, d: nat, e: nat, level: nat)
    requires
        level <= d,
        e < pow2(d),
    ensures
        root_from_path(
            f,
            node_hash(f, leaves, level, e / pow2(level)),
            e / pow2(level),
            auth_path(f, leaves, d, e).skip(level as int),
        ) == node_hash(f, leaves, d, 0),
    decreases d - level,
{
    let path = auth_path(f, leaves, d, e);
    lemma_pow2_pos(level);
    lemma_pow2_pos(d);
    if level == d {
        lemma_basic_div(e as int, pow2(d) as int);
        assert(path.skip(d as int) =~= Seq::<Seq<u8>>::empty());
    } else {
        let p = pow2(level) as int;
        let i = (e / pow2(level)) as int;
        lemma_div_denominator(e as int, p, 2);
        assert(pow2((level + 1) as nat) == 2 * pow2(level));
        assert(i / 2 == e as int / (pow2((level + 1) as nat) as int)) by {
            assert(p * 2 == pow2((level + 1) as nat) as int);
        }
        lemma_fundamental_div_mod(i, 2);
        let tail = path.skip(level as int);
        assert(tail[0] == node_hash(f, leaves, level, sib_index(e, level)));
        assert(tail.skip(1) =~= path.skip(level as int + 1));
        let up = if i % 2 == 0 {
            combine(f, node_hash(f, leaves, level, i as nat), tail[0])
        } else {
            combine(f, tail[0], node_hash(f, leaves, level, i as nat))
        };
        if i % 2 == 0 {
            assert(sib_index(e, level) == (i + 1) as nat);
            assert(2 * ((i / 2) as nat) == i as nat);
            assert(up == node_hash(f, leaves, (level + 1) as nat, (i / 2) as nat));
        } else {
            assert(sib_index(e, level) == (i - 1) as nat);
            assert(2 * ((i / 2) as nat) == (i - 1) as nat);
            assert(up == node_hash(f, leaves, (level + 1) as nat, (i / 2) as nat));
        }
        lemma_root_from_path(f, leaves, d, e, (level + 1) as nat);
    }
}

/// Executable parent combination.
pub fn combine_nodes(f: HashFamily, l: &Vec<u8>, r: &Vec<u8>) -> (res: Vec<u8>)
    ensures
        res@ == combine(f, l@, r@),
        res@.len() == 32,
{
    let mut inp: Vec<u8> = Vec::new();
    inp.push(DOM_NODE);
    push_all(&mut inp, l);
    push_all(&mut inp, r);
    proof {
        assert(inp@ =~= seq![DOM_NODE] + l@ + r@);
    }
    digest_bytes(f, &inp)
}

/// Compute tree node `index` at height `level` from the leaf vector.
pub fn compute_node(f: HashFamily, leaves: &Vec<Vec<u8>>, level: u64, index: u64) -> (r: Vec<u8>)
    requires
        level <= 40,
        (index + 1) * pow2(level as nat) <= leaves@.len(),
    ensures
        r@ == node_hash(f, leaves.deep_view(), level as nat, index as nat),
        level > 0 ==> r@.len() == 32,
        level == 0 ==> r@ == leaves@[index as int]@,
    decreases level,
{
    let n = leaves.len();
    proof {
        lemma_pow2_pos(level as nat);
    }
    if level == 0 {
        proof {
            assert(pow2(0nat) == 1);
            assert((index + 1) * pow2(0nat) == index + 1) by (nonlinear_arith)
                requires
                    pow2(0nat) == 1,
            ;
        }
        assert(index < leaves@.len());
        let i = index as usize;
        let mut r: Vec<u8> = Vec::new();
        push_all(&mut r, &leaves[i]);
        proof {
            assert(leaves@[index as int].deep_view() =~= leaves@[index as int]@);
            assert(r@ =~= leaves@[index as int]@);
        }
        r
    } else {
        proof {
            let p = pow2((level - 1) as nat) as int;
            lemma_pow2_pos((level - 1) as nat);
            assert(pow2(level as nat) == 2 * pow2((level - 1) as nat));
            assert((2 * index + 2) * p <= n as int) by (nonlinear_arith)
                requires
                    (index + 1) * (2 * p) <= n as int,
            ;
            assert((2 * index + 1) * p <= n as int) by (nonlinear_arith)
                requires
                    (2 * index + 2) * p <= n as int,
                    p >= 1,
            ;
            assert(2 * index + 2 <= n as int) by (nonlinear_arith)
                requires
                    (2 * index + 2) * p <= n as int,
                    p >= 1,
                    index >= 0,
            ;
        }
        let l = compute_node(f, leaves, level - 1, 2 * index);
        let r = compute_node(f, leaves, level - 1, 2 * index + 1);
        combine_nodes(f, &l, &r)
    }
}

} // verus!
