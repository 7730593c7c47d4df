//! The incremental merkle accumulator.
//!
//! A compact, append-only mirror of the on-chain tree: it keeps one "branch"
//! digest per level plus a leaf count, O(depth) space in all. The branch slot
//! at level `i` is meaningful whenever bit `i` of the count is set, and then
//! holds the digest of the last complete subtree at that level — exactly what
//! is needed to merge the next leaf upward and to fold out the current root.

use vstd::prelude::*;
use vstd::arithmetic::div_mod::{
    lemma_basic_div, lemma_div_by_self, lemma_div_denominator, lemma_fundamental_div_mod,
    lemma_fundamental_div_mod_converse, lemma_mod_multiples_basic,
};
use vstd::arithmetic::power2::{
    lemma2_to64, lemma_pow2_adds, lemma_pow2_pos, lemma_pow2_strictly_increases,
    lemma_pow2_unfold, pow2,
};
use crate::digest::{copy_digests, hash_two, keccak_pair, Digest};
use crate::error::ProverError;
use crate::tree::{
    lemma_multiple_pow2_lower_even, lemma_odd_multiple_pow2_mod, lemma_subtree_prefix,
    lemma_succ_div_pow2_unchanged, lemma_zero_subtree, pow2_u64, subtree_hash, zero_subtree,
    MAX_DEPTH,
};

verus! {

/// Whether bit `i` of `c` is set.
pub open spec fn bit_set(c: nat, i: nat) -> bool {
    (c / pow2(i)) % 2 == 1
}

/// The compact accumulator: branch digests, zero-subtree digests and a count.
pub struct IncrementalMerkle {
    depth: usize,
    branch: Vec<Digest>,
    count: u64,
    zeroes: Vec<Digest>,
    leaves: Ghost<Seq<Seq<u8>>>,
}

impl View for IncrementalMerkle {
    type V = Seq<Seq<u8>>;

    /// The sequence of ingested leaf digests.
    closed spec fn view(&self) -> Seq<Seq<u8>> {
        self.leaves@
    }
}

impl IncrementalMerkle {
    /// The configured maximum depth.
    pub closed spec fn depth_spec(&self) -> nat {
        self.depth as nat
    }

    #[verifier::type_invariant]
    spec fn inv(&self) -> bool {
        &&& 1 <= self.depth <= MAX_DEPTH
        &&& self.branch@.len() == self.depth + 1
        &&& self.zeroes@.len() == self.depth + 1
        &&& forall|i: int|
            0 <= i <= self.depth ==> (#[trigger] self.zeroes@[i])@ == zero_subtree(i as nat)
        &&& self.count == self.leaves@.len()
        &&& self.leaves@.len() <= pow2(self.depth as nat)
        &&& forall|i: int|
            0 <= i <= self.depth && bit_set(self.leaves@.len(), i as nat) ==> (
            #[trigger] self.branch@[i])@ == subtree_hash(
                self.leaves@,
                i as nat,
                (self.leaves@.len() / pow2(i as nat) - 1) as nat,
            )
    }

    /// An empty accumulator of the given maximum depth.
    pub fn with_depth(depth: usize) -> (t: IncrementalMerkle)
        requires
            1 <= depth <= MAX_DEPTH,
        ensures
            t@ == Seq::<Seq<u8>>::empty(),
            t.depth_spec() == depth,
    {
        let mut zeroes: Vec<Digest> = Vec::new();
        zeroes.push(Digest::zero());
        let mut i: usize = 1;
        while i <= depth
            invariant
                1 <= i <= depth + 1,
                depth <= MAX_DEPTH,
                zeroes@.len() == i,
                forall|k: int| 0 <= k < i ==> (#[trigger] zeroes@[k])@ == zero_subtree(k as nat),
            decreases depth - i + 1,
        {
            let prev = zeroes[i - 1];
            let z = keccak_pair(&prev, &prev);
            zeroes.push(z);
            i = i + 1;
        }
        let mut branch: Vec<Digest> = Vec::new();
        let mut j: usize = 0;
        while j <= depth
            invariant
                j <= depth + 1,
                depth <= MAX_DEPTH,
                branch@.len() == j,
            decreases depth - j + 1,
        {
            branch.push(Digest::zero());
            j = j + 1;
        }
        proof {
            assert forall|i: int| 0 <= i <= depth implies !#[trigger] bit_set(0, i as nat) by {
                lemma_pow2_pos(i as nat);
                lemma_basic_div(0, pow2(i as nat) as int);
            }
            lemma_pow2_pos(depth as nat);
        }
        IncrementalMerkle {
            depth,
            branch,
            count: 0,
            zeroes,
            leaves: Ghost(Seq::empty()),
        }
    }

    /// An empty accumulator of the greatest supported depth.
    pub fn new() -> (t: IncrementalMerkle)
        ensures
            t@ == Seq::<Seq<u8>>::empty(),
            t.depth_spec() == MAX_DEPTH,
    {
        IncrementalMerkle::with_depth(MAX_DEPTH)
    }

    /// The number of ingested leaves.
    pub fn count(&self) -> (c: u64)
        ensures
            c == self@.len(),
    {
        proof {
            use_type_invariant(&*self);
        }
        self.count
    }

    /// Appends one leaf digest, merging it upward through every complete
    /// level below it, or fails when the tree is full.
    pub fn ingest(&mut self, leaf: Digest) -> (r: Result<(), ProverError>)
        ensures
            final(self).depth_spec() == old(self).depth_spec(),
            match r {
                Ok(()) => old(self)@.len() < pow2(old(self).depth_spec()) && final(self)@ == old(
                    self,
                )@ + seq![leaf@],
                Err(e) => e == ProverError::TreeFull && old(self)@.len() == pow2(
                    old(self).depth_spec(),
                ) && *final(self) == *old(self),
            },
    {
        proof {
            use_type_invariant(&*self);
            lemma2_to64();
        }
        let depth = self.depth;
        let cap = pow2_u64(depth);
        if self.count == cap {
            return Err(ProverError::TreeFull);
        }
        let ghost old_leaves = self.leaves@;
        let ghost new_leaves = old_leaves + seq![leaf@];
        let new_count = self.count + 1;
        let ghost c = new_count as nat;
        let mut node = leaf;
        let mut size = new_count;
        let mut i: usize = 0;
        proof {
            assert(c / pow2(0) == c && c % pow2(0) == 0);
            assert(subtree_hash(new_leaves, 0, (c - 1) as nat) == leaf@);
        }
        while size % 2 == 0
            invariant
                self.inv(),
                self.leaves@ == old_leaves,
                new_leaves == old_leaves + seq![leaf@],
                c == old_leaves.len() + 1,
                c <= pow2(self.depth as nat),
                new_count == c,
                i <= self.depth,
                size == c / pow2(i as nat),
                c % pow2(i as nat) == 0,
                size >= 1,
                node@ == subtree_hash(new_leaves, i as nat, (size - 1) as nat),
            decreases size,
        {
            let ghost lvl = i as nat;
            let ghost s = size as nat;
            proof {
                lemma_pow2_pos(lvl);
                lemma_pow2_unfold((lvl + 1) as nat);
                lemma_pow2_pos((lvl + 1) as nat);
                // c is an even multiple of pow2(lvl), so the next level is in range.
                lemma_fundamental_div_mod(c as int, pow2(lvl) as int);
                assert(c == s * pow2(lvl)) by (nonlinear_arith)
                    requires c == pow2(lvl) * s + 0;
                assert(c >= 2 * pow2(lvl)) by (nonlinear_arith)
                    requires c == s * pow2(lvl), s >= 2, pow2(lvl) >= 1;
                if i + 1 > self.depth {
                    lemma_pow2_strictly_increases(self.depth as nat, lvl + 1);
                }
                // The previous count has a set bit at this level, so the
                // branch slot holds the digest of the sibling subtree.
                assert(old_leaves.len() == (s - 1) * pow2(lvl) + (pow2(lvl) - 1)) by (nonlinear_arith)
                    requires c == s * pow2(lvl), old_leaves.len() == c - 1, pow2(lvl) >= 1;
                lemma_fundamental_div_mod_converse(
                    old_leaves.len() as int,
                    pow2(lvl) as int,
                    (s - 1) as int,
                    pow2(lvl) as int - 1,
                );
                assert(old_leaves.len() / pow2(lvl) == s - 1);
                assert(bit_set(old_leaves.len(), lvl));
                assert(self.branch@[i as int]@ == subtree_hash(
                    old_leaves,
                    lvl,
                    (s - 2) as nat,
                ));
                // That subtree is complete within the old leaves, so it is
                // unchanged by the append.
                assert((s - 1) * pow2(lvl) <= old_leaves.len());
                lemma_subtree_prefix(old_leaves, new_leaves, lvl, (s - 2) as nat);
                // Merging gives the parent node one level up.
                lemma_fundamental_div_mod(s as int, 2);
                assert(2 * (s / 2) == s);
                assert(subtree_hash(new_leaves, lvl + 1, (s / 2 - 1) as nat) == hash_two(
                    subtree_hash(new_leaves, lvl, (s - 2) as nat),
                    subtree_hash(new_leaves, lvl, (s - 1) as nat),
                ));
                // The loop variables at the next level.
                lemma_div_denominator(c as int, pow2(lvl) as int, 2);
                assert(pow2(lvl) * 2 == pow2(lvl + 1)) by (nonlinear_arith)
                    requires pow2(lvl + 1) == 2 * pow2(lvl);
                assert(c / pow2(lvl + 1) == s / 2);
                assert(c == (s / 2) * pow2(lvl + 1)) by (nonlinear_arith)
                    requires c == s * pow2(lvl), 2 * (s / 2) == s, pow2(lvl + 1) == 2 * pow2(lvl);
                lemma_mod_multiples_basic((s / 2) as int, pow2(lvl + 1) as int);
            }
            node = keccak_pair(&self.branch[i], &node);
            size = size / 2;
            i = i + 1;
        }
        let ghost lvl = i as nat;
        let ghost s = size as nat;
        let mut branch = copy_digests(&self.branch);
        branch.set(i, node);
        let zeroes = copy_digests(&self.zeroes);
        proof {
            lemma_pow2_pos(lvl);
            lemma_fundamental_div_mod(c as int, pow2(lvl) as int);
            assert(c == s * pow2(lvl)) by (nonlinear_arith)
                requires c == pow2(lvl) * s + 0;
            // Every slot demanded by the new count holds the right digest.
            assert forall|j: int|
                0 <= j <= self.depth && bit_set(c, j as nat) implies (#[trigger] branch@[j])@
                == subtree_hash(new_leaves, j as nat, (c / pow2(j as nat) - 1) as nat) by {
                let jn = j as nat;
                lemma_pow2_pos(jn);
                if jn < lvl {
                    lemma_multiple_pow2_lower_even(c, jn, lvl);
                    assert(false);
                } else if jn == lvl {
                    assert(branch@[j]@ == node@);
                } else {
                    lemma_odd_multiple_pow2_mod(s, lvl, jn);
                    assert(c % pow2(jn) != 0);
                    lemma_succ_div_pow2_unchanged(old_leaves.len(), jn);
                    assert(c / pow2(jn) == old_leaves.len() / pow2(jn));
                    assert(bit_set(old_leaves.len(), jn));
                    let q = old_leaves.len() / pow2(jn);
                    assert(self.branch@[j]@ == subtree_hash(old_leaves, jn, (q - 1) as nat));
                    lemma_fundamental_div_mod(old_leaves.len() as int, pow2(jn) as int);
                    assert(q * pow2(jn) <= old_leaves.len()) by (nonlinear_arith)
                        requires
                            old_leaves.len() == pow2(jn) * q + old_leaves.len() % pow2(jn),
                            old_leaves.len() % pow2(jn) >= 0,
                    ;
                    lemma_subtree_prefix(old_leaves, new_leaves, jn, (q - 1) as nat);
                    assert(branch@[j] == self.branch@[j]);
                }
            }
        }
        let next = IncrementalMerkle {
            depth,
            branch,
            count: new_count,
            zeroes,
            leaves: Ghost(new_leaves),
        };
        *self = next;
        Ok(())
    }

    /// The current root: the fold of the branch digests against the
    /// zero-subtree digests, driven by the bits of the count.
    pub fn root(&self) -> (r: Digest)
        ensures
            r@ == subtree_hash(self@, self.depth_spec(), 0),
    {
        proof {
            use_type_invariant(&*self);
            lemma2_to64();
        }
        let depth = self.depth;
        let cap = pow2_u64(depth);
        if self.count == cap {
            // A full tree's root is the completed subtree at the top level.
            proof {
                lemma_pow2_pos(depth as nat);
                lemma_div_by_self(pow2(depth as nat) as int);
                assert(bit_set(self.leaves@.len(), depth as nat));
            }
            return self.branch[depth];
        }
        let ghost leaves = self.leaves@;
        let ghost c = self.count as nat;
        let mut node = self.zeroes[0];
        let mut size = self.count;
        let mut i: usize = 0;
        proof {
            assert(c / pow2(0) == c);
            lemma_zero_subtree(leaves, 0, c);
        }
        while i < depth
            invariant
                self.inv(),
                self.leaves@ == leaves,
                depth == self.depth,
                c == leaves.len() < pow2(depth as nat),
                i <= depth,
                size == c / pow2(i as nat),
                node@ == subtree_hash(leaves, i as nat, c / pow2(i as nat)),
            decreases depth - i,
        {
            let ghost lvl = i as nat;
            let ghost p = c / pow2(lvl);
            proof {
                lemma_pow2_pos(lvl);
                lemma_pow2_unfold((lvl + 1) as nat);
                lemma_pow2_pos((lvl + 1) as nat);
                lemma_fundamental_div_mod(c as int, pow2(lvl) as int);
                lemma_fundamental_div_mod(p as int, 2);
                lemma_div_denominator(c as int, pow2(lvl) as int, 2);
                assert(pow2(lvl) * 2 == pow2(lvl + 1)) by (nonlinear_arith)
                    requires pow2(lvl + 1) == 2 * pow2(lvl);
                assert(c / pow2(lvl + 1) == p / 2);
                if p % 2 == 1 {
                    // The branch slot holds the left sibling.
                    assert(bit_set(c, lvl));
                    assert(2 * (p / 2) == p - 1);
                    assert(subtree_hash(leaves, lvl + 1, p / 2) == hash_two(
                        subtree_hash(leaves, lvl, (p - 1) as nat),
                        subtree_hash(leaves, lvl, p),
                    ));
                } else {
                    // The right sibling lies wholly beyond the leaves.
                    assert(2 * (p / 2) == p);
                    assert((p + 1) * pow2(lvl) == pow2(lvl) * p + pow2(lvl)) by (nonlinear_arith);
                    assert((p + 1) * pow2(lvl) >= leaves.len());
                    lemma_zero_subtree(leaves, lvl, p + 1);
                    assert(subtree_hash(leaves, lvl + 1, p / 2) == hash_two(
                        subtree_hash(leaves, lvl, p),
                        subtree_hash(leaves, lvl, p + 1),
                    ));
                }
            }
            if size % 2 == 1 {
                node = keccak_pair(&self.branch[i], &node);
            } else {
                node = keccak_pair(&node, &self.zeroes[i]);
            }
            size = size / 2;
            i = i + 1;
        }
        proof {
            lemma_pow2_pos(depth as nat);
            lemma_basic_div(c as int, pow2(depth as nat) as int);
        }
        node
    }
}

} // verus!
