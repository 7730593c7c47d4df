//! The mathematical model of the merkle tree.
//!
//! Both tree representations are specified against one conceptual object: the
//! full binary tree of a fixed depth whose first leaf slots hold the ingested
//! digests and whose remaining slots hold the all-zero leaf. [`subtree_hash`]
//! gives the digest of any node of that tree; [`fold_path`] replays an
//! authentication path; the lemmas here connect the two.

use vstd::prelude::*;
use vstd::arithmetic::div_mod::{
    lemma_basic_div, lemma_div_denominator, lemma_fundamental_div_mod,
    lemma_fundamental_div_mod_converse, lemma_multiply_divide_lt,
};
use vstd::arithmetic::power2::{
    lemma2_to64_rest, lemma_pow2_adds, lemma_pow2_pos, lemma_pow2_strictly_increases,
    lemma_pow2_unfold, pow2,
};
use crate::digest::{hash_two, zero_leaf, Digest};

verus! {

/// Greatest supported tree depth: room for 2^32 leaves.
pub const MAX_DEPTH: usize = 32;

/// The views of a sequence of digests.
pub open spec fn digests_view(s: Seq<Digest>) -> Seq<Seq<u8>> {
    s.map_values(|d: Digest| d@)
}

/// Digest of the node at `level` and `index` of the conceptual padded tree
/// over `leaves`: leaf slot `k` holds `leaves[k]` where `k < leaves.len()`
/// and the all-zero leaf beyond.
pub open spec fn subtree_hash(leaves: Seq<Seq<u8>>, level: nat, index: nat) -> Seq<u8>
    decreases level,
{
    if level == 0 {
        if index < leaves.len() {
            leaves[index as int]
        } else {
            zero_leaf()
        }
    } else {
        hash_two(
            subtree_hash(leaves, (level - 1) as nat, 2 * index),
            subtree_hash(leaves, (level - 1) as nat, 2 * index + 1),
        )
    }
}

/// Digest of a subtree of `level` levels holding only zero leaves.
pub open spec fn zero_subtree(level: nat) -> Seq<u8>
    decreases level,
{
    if level == 0 {
        zero_leaf()
    } else {
        hash_two(zero_subtree((level - 1) as nat), zero_subtree((level - 1) as nat))
    }
}

/// Folds a node digest upward through an authentication path: at each level
/// the node is hashed with its sibling, on the side given by the node index's
/// lowest bit.
pub open spec fn fold_path(node: Seq<u8>, index: nat, path: Seq<Seq<u8>>) -> Seq<u8>
    decreases path.len(),
{
    if path.len() == 0 {
        node
    } else {
        let parent = if index % 2 == 1 {
            hash_two(path[0], node)
        } else {
            hash_two(node, path[0])
        };
        fold_path(parent, index / 2, path.drop_first())
    }
}

/// Index, at `level`, of the sibling of the node on the path from leaf
/// `leaf_index` to the root.
pub open spec fn sibling_index(leaf_index: nat, level: nat) -> nat {
    let p = leaf_index / pow2(level);
    if p % 2 == 1 {
        (p - 1) as nat
    } else {
        p + 1
    }
}

/// The authentication path of `leaf_index` in the padded tree over `leaves`:
/// the digest of the path node's sibling at every level below the root.
pub open spec fn path_spec(leaves: Seq<Seq<u8>>, leaf_index: nat, depth: nat) -> Seq<Seq<u8>> {
    Seq::new(depth, |i: int| subtree_hash(leaves, i as nat, sibling_index(leaf_index, i as nat)))
}

/// Computes a small power of two.
pub fn pow2_u64(e: usize) -> (r: u64)
    requires
        e <= 63,
    ensures
        r == pow2(e as nat),
{
    proof {
        vstd::arithmetic::power2::lemma2_to64();
    }
    let mut r: u64 = 1;
    let mut k: usize = 0;
    while k < e
        invariant
            k <= e <= 63,
            r == pow2(k as nat),
        decreases e - k,
    {
        proof {
            lemma_pow2_strictly_increases(k as nat, 63);
            lemma2_to64_rest();
            lemma_pow2_unfold((k + 1) as nat);
        }
        r = r * 2;
        k = k + 1;
    }
    r
}

/// A subtree lying entirely beyond the held leaves is a zero subtree.
pub proof fn lemma_zero_subtree(leaves: Seq<Seq<u8>>, level: nat, index: nat)
    requires
        index * pow2(level) >= leaves.len(),
    ensures
        subtree_hash(leaves, level, index) == zero_subtree(level),
    decreases level,
{
    lemma_pow2_pos(level);
    if level == 0 {
        assert(pow2(0) == 1) by {
            vstd::arithmetic::power2::lemma2_to64();
        }
        assert(index * 1 == index);
    } else {
        let sub = (level - 1) as nat;
        lemma_pow2_unfold(level);
        lemma_pow2_pos(sub);
        assert((2 * index) * pow2(sub) == index * pow2(level)) by (nonlinear_arith)
            requires pow2(level) == 2 * pow2(sub);
        assert((2 * index + 1) * pow2(sub) >= (2 * index) * pow2(sub)) by (nonlinear_arith)
            requires pow2(sub) >= 1;
        lemma_zero_subtree(leaves, sub, 2 * index);
        lemma_zero_subtree(leaves, sub, 2 * index + 1);
    }
}

/// A subtree complete within a prefix of the leaves keeps its digest when
/// further leaves are appended.
pub proof fn lemma_subtree_prefix(short: Seq<Seq<u8>>, long: Seq<Seq<u8>>, level: nat, index: nat)
    requires
        short.len() <= long.len(),
        forall|k: int| 0 <= k < short.len() ==> long[k] == short[k],
        (index + 1) * pow2(level) <= short.len(),
    ensures
        subtree_hash(long, level, index) == subtree_hash(short, level, index),
    decreases level,
{
    lemma_pow2_pos(level);
    if level == 0 {
        assert(pow2(0) == 1) by {
            vstd::arithmetic::power2::lemma2_to64();
        }
        assert((index + 1) * 1 == index + 1);
    } else {
        let sub = (level - 1) as nat;
        lemma_pow2_unfold(level);
        lemma_pow2_pos(sub);
        assert((2 * index + 2) * pow2(sub) == (index + 1) * pow2(level)) by (nonlinear_arith)
            requires pow2(level) == 2 * pow2(sub);
        assert((2 * index + 1) * pow2(sub) <= (2 * index + 2) * pow2(sub)) by (nonlinear_arith)
            requires pow2(sub) >= 1;
        lemma_subtree_prefix(short, long, sub, 2 * index);
        lemma_subtree_prefix(short, long, sub, 2 * index + 1);
    }
}

/// Dividing by a power of two bounds the quotient by the complementary power.
pub proof fn lemma_div_pow2_bound(x: nat, i: nat, d: nat)
    requires
        i <= d,
        x < pow2(d),
    ensures
        x / pow2(i) < pow2((d - i) as nat),
{
    lemma_pow2_pos(i);
    lemma_pow2_adds(i, (d - i) as nat);
    lemma_multiply_divide_lt(x as int, pow2(i) as int, pow2((d - i) as nat) as int);
}

/// Folding the authentication path of `leaf_index` from the path node at
/// `level` upward reproduces the root of the padded tree over `leaves`.
pub proof fn lemma_fold_path_section(leaves: Seq<Seq<u8>>, depth: nat, leaf_index: nat, level: nat)
    requires
        leaf_index < leaves.len(),
        leaves.len() <= pow2(depth),
        level <= depth,
    ensures
        fold_path(
            subtree_hash(leaves, level, leaf_index / pow2(level)),
            leaf_index / pow2(level),
            path_spec(leaves, leaf_index, depth).skip(level as int),
        ) == subtree_hash(leaves, depth, 0),
    decreases depth - level,
{
    lemma_pow2_pos(level);
    let p = leaf_index / pow2(level);
    let tail = path_spec(leaves, leaf_index, depth).skip(level as int);
    if level == depth {
        lemma_basic_div(leaf_index as int, pow2(depth) as int);
        assert(p == 0);
        assert(tail.len() == 0);
    } else {
        // The sibling at this level completes the parent node one level up.
        let sib = sibling_index(leaf_index, level);
        assert(tail[0] == subtree_hash(leaves, level, sib));
        let parent_index = p / 2;
        lemma_pow2_unfold((level + 1) as nat);
        lemma_pow2_pos((level + 1) as nat);
        lemma_div_denominator(leaf_index as int, pow2(level) as int, 2);
        assert(pow2(level) * 2 == pow2(level + 1)) by (nonlinear_arith)
            requires pow2(level + 1) == 2 * pow2(level);
        assert(p / 2 == leaf_index / pow2((level + 1) as nat));
        lemma_fundamental_div_mod(p as int, 2);
        let parent = subtree_hash(leaves, (level + 1) as nat, parent_index);
        if p % 2 == 1 {
            assert(2 * parent_index == sib && 2 * parent_index + 1 == p);
            assert(parent == hash_two(
                subtree_hash(leaves, level, sib),
                subtree_hash(leaves, level, p),
            ));
        } else {
            assert(2 * parent_index == p && 2 * parent_index + 1 == sib);
            assert(parent == hash_two(
                subtree_hash(leaves, level, p),
                subtree_hash(leaves, level, sib),
            ));
        }
        assert(tail.drop_first() =~= path_spec(leaves, leaf_index, depth).skip(level as int + 1));
        lemma_fold_path_section(leaves, depth, leaf_index, (level + 1) as nat);
        assert(fold_path(subtree_hash(leaves, level, p), p, tail)
            == fold_path(parent, parent_index, tail.drop_first()));
    }
}

/// Folding the whole authentication path of a leaf reproduces the root.
pub proof fn lemma_fold_path_root(leaves: Seq<Seq<u8>>, depth: nat, leaf_index: nat)
    requires
        leaf_index < leaves.len(),
        leaves.len() <= pow2(depth),
    ensures
        fold_path(
            leaves[leaf_index as int],
            leaf_index,
            path_spec(leaves, leaf_index, depth),
        ) == subtree_hash(leaves, depth, 0),
{
    lemma_fold_path_section(leaves, depth, leaf_index, 0);
    assert(pow2(0) == 1) by {
        vstd::arithmetic::power2::lemma2_to64();
    }
    assert(leaf_index / 1 == leaf_index);
    assert(path_spec(leaves, leaf_index, depth).skip(0) =~= path_spec(leaves, leaf_index, depth));
}

/// The successor's quotient by a power of two is unchanged unless the
/// successor is a multiple of it.
pub proof fn lemma_succ_div_pow2_unchanged(c: nat, j: nat)
    requires
        ((c + 1) as nat) % pow2(j) != 0,
    ensures
        ((c + 1) as nat) / pow2(j) == c / pow2(j),
{
    lemma_pow2_pos(j);
    let d = pow2(j) as int;
    let q = ((c + 1) as int) / d;
    let r = ((c + 1) as int) % d;
    lemma_fundamental_div_mod((c + 1) as int, d);
    lemma_fundamental_div_mod_converse(c as int, d, q, r - 1);
}

/// A multiple of `pow2(i)` with an odd cofactor is no multiple of a higher
/// power of two.
pub proof fn lemma_odd_multiple_pow2_mod(size: nat, i: nat, j: nat)
    requires
        size % 2 == 1,
        i < j,
    ensures
        (size * pow2(i)) % pow2(j) != 0,
{
    lemma_pow2_pos(i);
    lemma_pow2_pos(j);
    lemma_pow2_pos((j - i - 1) as nat);
    lemma_pow2_adds(i, (j - i) as nat);
    lemma_pow2_unfold((j - i) as nat);
    if (size * pow2(i)) % pow2(j) == 0 {
        let q = ((size * pow2(i)) / pow2(j)) as int;
        lemma_fundamental_div_mod((size * pow2(i)) as int, pow2(j) as int);
        // size * pow2(i) == pow2(j) * q forces size itself to be even.
        assert(size == (pow2((j - i - 1) as nat) * q) * 2) by (nonlinear_arith)
            requires
                size * pow2(i) == pow2(j) * q,
                pow2(j) == pow2(i) * pow2((j - i) as nat),
                pow2((j - i) as nat) == 2 * pow2((j - i - 1) as nat),
                pow2(i) > 0,
        ;
        vstd::arithmetic::div_mod::lemma_mod_multiples_basic(pow2((j - i - 1) as nat) * q, 2);
    }
}

/// A multiple of `pow2(i)` has even quotients by every lower power of two.
pub proof fn lemma_multiple_pow2_lower_even(c: nat, j: nat, i: nat)
    requires
        c % pow2(i) == 0,
        j < i,
    ensures
        (c / pow2(j)) % 2 == 0,
{
    lemma_pow2_pos(i);
    lemma_pow2_pos(j);
    lemma_pow2_pos((i - j - 1) as nat);
    lemma_pow2_adds(j, (i - j) as nat);
    lemma_pow2_unfold((i - j) as nat);
    let m = (c / pow2(i)) as int;
    lemma_fundamental_div_mod(c as int, pow2(i) as int);
    // c == pow2(i) * m, so c / pow2(j) == 2 * (pow2(i - j - 1) * m), even.
    let half = pow2((i - j - 1) as nat) * m;
    assert(c == (2 * half) * pow2(j) + 0) by (nonlinear_arith)
        requires
            c == pow2(i) * m,
            pow2(i) == pow2(j) * pow2((i - j) as nat),
            pow2((i - j) as nat) == 2 * pow2((i - j - 1) as nat),
            half == pow2((i - j - 1) as nat) * m,
    ;
    lemma_fundamental_div_mod_converse(c as int, pow2(j) as int, 2 * half, 0);
    vstd::arithmetic::div_mod::lemma_mod_multiples_basic(half, 2);
    assert(2 * half == half * 2);
}

} // verus!
