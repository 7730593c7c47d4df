//! The full prover tree.
//!
//! Retains every ingested leaf and answers inclusion-proof queries against
//! any historical leaf count: the authentication path of a leaf as the tree
//! stood when it held exactly `root_index + 1` leaves. Node digests are
//! recomputed from the retained leaves of the queried snapshot, so siblings
//! beyond the historical frontier are zero subtrees, never since-updated
//! current values.

use vstd::prelude::*;
use vstd::arithmetic::mul::lemma_mul_inequality;
use vstd::arithmetic::power2::{
    lemma2_to64, lemma2_to64_rest, lemma_pow2_adds, lemma_pow2_pos, lemma_pow2_strictly_increases,
    lemma_pow2_unfold, pow2,
};
use crate::digest::{keccak_pair, Digest};
use crate::error::ProverError;
use crate::tree::{
    digests_view, fold_path, lemma_div_pow2_bound, lemma_fold_path_root, lemma_zero_subtree,
    path_spec, pow2_u64, sibling_index, subtree_hash, zero_subtree, MAX_DEPTH,
};

verus! {

/// An inclusion proof: a leaf, its index, the sibling path from the leaf to
/// the root, and the historical root the path folds to.
pub struct Proof {
    /// The proven leaf digest.
    pub leaf: Digest,
    /// The zero-based leaf index.
    pub index: u64,
    /// The sibling digest at every level, from the leaf upward.
    pub path: Vec<Digest>,
    /// The historical root that folding the path reproduces.
    pub root: Digest,
}

impl Proof {
    /// Replays the authentication path: folds the leaf digest upward through
    /// the siblings, ordering each pair by the bits of the leaf index.
    pub fn computed_root(&self) -> (r: Digest)
        ensures
            r@ == fold_path(self.leaf@, self.index as nat, digests_view(self.path@)),
    {
        let whole: Ghost<Seq<Seq<u8>>> = Ghost(digests_view(self.path@));
        let mut node = self.leaf;
        let mut idx = self.index;
        let mut i: usize = 0;
        proof {
            assert(whole@.skip(0) =~= whole@);
        }
        while i < self.path.len()
            invariant
                i <= self.path@.len(),
                whole@ == digests_view(self.path@),
                fold_path(node@, idx as nat, whole@.skip(i as int)) == fold_path(
                    self.leaf@,
                    self.index as nat,
                    whole@,
                ),
            decreases self.path@.len() - i,
        {
            proof {
                assert(whole@.skip(i as int)[0] == self.path@[i as int]@);
                assert(whole@.skip(i as int).drop_first() =~= whole@.skip(i as int + 1));
            }
            if idx % 2 == 1 {
                node = keccak_pair(&self.path[i], &node);
            } else {
                node = keccak_pair(&node, &self.path[i]);
            }
            idx = idx / 2;
            i = i + 1;
        }
        node
    }
}

/// The prover tree: the full leaf history plus zero-subtree digests.
pub struct Prover {
    depth: usize,
    leaves: Vec<Digest>,
    zeroes: Vec<Digest>,
}

impl View for Prover {
    type V = Seq<Seq<u8>>;

    /// The sequence of ingested leaf digests.
    closed spec fn view(&self) -> Seq<Seq<u8>> {
        digests_view(self.leaves@)
    }
}

impl Prover {
    /// The configured maximum depth.
    pub closed spec fn depth_spec(&self) -> nat {
        self.depth as nat
    }

    #[verifier::type_invariant]
    spec fn inv(&self) -> bool {
        &&& 1 <= self.depth <= MAX_DEPTH
        &&& self.zeroes@.len() == self.depth + 1
        &&& forall|i: int|
            0 <= i <= self.depth ==> (#[trigger] self.zeroes@[i])@ == zero_subtree(i as nat)
        &&& self.leaves@.len() <= pow2(self.depth as nat)
    }

    /// An empty prover tree of the given maximum depth.
    pub fn with_depth(depth: usize) -> (t: Prover)
        requires
            1 <= depth <= MAX_DEPTH,
        ensures
            t@ == Seq::<Seq<u8>>::empty(),
            t.depth_spec() == depth,
    {
        let mut zeroes: Vec<Digest> = Vec::new();
        zeroes.push(Digest::zero());
        let mut i: usize = 1;
        while i <= depth
            invariant
                1 <= i <= depth + 1,
                depth <= MAX_DEPTH,
                zeroes@.len() == i,
                forall|k: int| 0 <= k < i ==> (#[trigger] zeroes@[k])@ == zero_subtree(k as nat),
            decreases depth - i + 1,
        {
            let prev = zeroes[i - 1];
            let z = keccak_pair(&prev, &prev);
            zeroes.push(z);
            i = i + 1;
        }
        proof {
            lemma_pow2_pos(depth as nat);
        }
        let t = Prover { depth, leaves: Vec::new(), zeroes };
        proof {
            assert(t@ =~= Seq::<Seq<u8>>::empty());
        }
        t
    }

    /// An empty prover tree of the greatest supported depth.
    pub fn new() -> (t: Prover)
        ensures
            t@ == Seq::<Seq<u8>>::empty(),
            t.depth_spec() == MAX_DEPTH,
    {
        Prover::with_depth(MAX_DEPTH)
    }

    /// The number of ingested leaves.
    pub fn count(&self) -> (c: u64)
        ensures
            c == self@.len(),
    {
        proof {
            use_type_invariant(&*self);
        }
        self.leaves.len() as u64
    }

    /// Appends one leaf digest, or fails when the tree is full.
    pub fn ingest(&mut self, leaf: Digest) -> (r: Result<(), ProverError>)
        ensures
            final(self).depth_spec() == old(self).depth_spec(),
            match r {
                Ok(()) => old(self)@.len() < pow2(old(self).depth_spec()) && final(self)@ == old(
                    self,
                )@ + seq![leaf@],
                Err(e) => e == ProverError::TreeFull && old(self)@.len() == pow2(
                    old(self).depth_spec(),
                ) && *final(self) == *old(self),
            },
    {
        proof {
            use_type_invariant(&*self);
        }
        let cap = pow2_u64(self.depth);
        if self.leaves.len() as u64 == cap {
            return Err(ProverError::TreeFull);
        }
        let mut grown: Vec<Digest> = Vec::new();
        std::mem::swap(&mut grown, &mut self.leaves);
        grown.push(leaf);
        self.leaves = grown;
        proof {
            assert(final(self)@ =~= old(self)@ + seq![leaf@]);
        }
        Ok(())
    }

    /// Digest of the node at `level` and `index` of the snapshot of this tree
    /// truncated to its first `n` leaves.
    fn compute_node(&self, n: usize, level: usize, index: u64) -> (r: Digest)
        requires
            n <= self.leaves@.len(),
            level <= self.depth_spec(),
            index < pow2((self.depth_spec() - level) as nat),
        ensures
            r@ == subtree_hash(digests_view(self.leaves@.take(n as int)), level as nat, index as nat),
        decreases level,
    {
        proof {
            use_type_invariant(&*self);
            lemma2_to64();
            lemma2_to64_rest();
        }
        let ghost hist = digests_view(self.leaves@.take(n as int));
        if level == 0 {
            if index < n as u64 {
                let d = self.leaves[index as usize];
                proof {
                    assert(hist[index as int] == self.leaves@.take(n as int)[index as int]@);
                }
                d
            } else {
                self.zeroes[0]
            }
        } else {
            let width = pow2_u64(level);
            proof {
                // The subtree's leaf range stays within 64 bits.
                lemma_pow2_pos(level as nat);
                lemma_pow2_adds((self.depth_spec() - level as nat) as nat, level as nat);
                lemma_mul_inequality(
                    index as int + 1,
                    pow2((self.depth_spec() - level as nat) as nat) as int,
                    pow2(level as nat) as int,
                );
                if self.depth < MAX_DEPTH {
                    lemma_pow2_strictly_increases(self.depth_spec(), MAX_DEPTH as nat);
                }
                assert((index + 1) * pow2(level as nat) == index * pow2(level as nat) + pow2(
                    level as nat,
                )) by (nonlinear_arith);
            }
            if index * width >= n as u64 {
                proof {
                    lemma_zero_subtree(hist, level as nat, index as nat);
                }
                self.zeroes[level]
            } else {
                proof {
                    lemma_pow2_unfold((self.depth_spec() - level as nat + 1) as nat);
                }
                let left = self.compute_node(n, level - 1, 2 * index);
                let right = self.compute_node(n, level - 1, 2 * index + 1);
                keccak_pair(&left, &right)
            }
        }
    }

    /// The current root, over all ingested leaves.
    pub fn root(&self) -> (r: Digest)
        ensures
            r@ == subtree_hash(self@, self.depth_spec(), 0),
    {
        proof {
            use_type_invariant(&*self);
            lemma_pow2_pos(self.depth_spec());
            lemma2_to64();
            assert(self.leaves@.take(self.leaves@.len() as int) =~= self.leaves@);
        }
        self.compute_node(self.leaves.len(), self.depth, 0)
    }

    /// The authentication path of the leaf at `leaf_index` as the tree stood
    /// when it held exactly `root_index + 1` leaves, with that historical
    /// root. Folding the path from the leaf reproduces the historical root.
    pub fn prove_against_previous(&self, leaf_index: u64, root_index: u64) -> (r: Result<
        Proof,
        ProverError,
    >)
        ensures
            r is Ok <==> leaf_index <= root_index && root_index < self@.len(),
            match r {
                Ok(p) => {
                    &&& p.index == leaf_index
                    &&& p.leaf@ == self@[leaf_index as int]
                    &&& p.path@.len() == self.depth_spec()
                    &&& digests_view(p.path@) == path_spec(
                        self@.take(root_index as int + 1),
                        leaf_index as nat,
                        self.depth_spec(),
                    )
                    &&& p.root@ == subtree_hash(
                        self@.take(root_index as int + 1),
                        self.depth_spec(),
                        0,
                    )
                    &&& fold_path(p.leaf@, leaf_index as nat, digests_view(p.path@)) == p.root@
                },
                Err(e) => e == ProverError::InvalidProofRequest { leaf_index, root_index },
            },
    {
        proof {
            use_type_invariant(&*self);
        }
        if leaf_index > root_index || root_index >= self.leaves.len() as u64 {
            return Err(ProverError::InvalidProofRequest { leaf_index, root_index });
        }
        let n = (root_index + 1) as usize;
        let ghost hist = digests_view(self.leaves@.take(n as int));
        proof {
            assert(hist =~= self@.take(root_index as int + 1));
        }
        let depth = self.depth;
        let mut path: Vec<Digest> = Vec::new();
        let mut i: usize = 0;
        while i < depth
            invariant
                i <= depth,
                depth == self.depth_spec(),
                path@.len() == i,
                n <= self.leaves@.len(),
                leaf_index < n <= pow2(depth as nat),
                hist == digests_view(self.leaves@.take(n as int)),
                forall|k: int|
                    0 <= k < i ==> (#[trigger] path@[k])@ == subtree_hash(
                        hist,
                        k as nat,
                        sibling_index(leaf_index as nat, k as nat),
                    ),
            decreases depth - i,
        {
            proof {
                use_type_invariant(&*self);
            }
            let w = pow2_u64(i);
            proof {
                lemma_pow2_pos(i as nat);
            }
            let p = leaf_index / w;
            let sib = if p % 2 == 1 {
                p - 1
            } else {
                p + 1
            };
            proof {
                lemma_div_pow2_bound(leaf_index as nat, i as nat, depth as nat);
                lemma_pow2_unfold((depth - i) as nat);
                // An even path node sits strictly left of an even power-of-two
                // bound, so its right sibling stays in range.
                assert(sib == sibling_index(leaf_index as nat, i as nat));
                assert(sib < pow2((depth - i) as nat));
            }
            let s = self.compute_node(n, i, sib);
            path.push(s);
            i = i + 1;
        }
        proof {
            use_type_invariant(&*self);
            lemma2_to64();
        }
        let root = self.compute_node(n, depth, 0);
        let leaf = self.leaves[leaf_index as usize];
        proof {
            assert(digests_view(path@) =~= path_spec(hist, leaf_index as nat, depth as nat));
            lemma_fold_path_root(hist, depth as nat, leaf_index as nat);
            assert(hist[leaf_index as int] == self.leaves@.take(n as int)[leaf_index as int]@);
            assert(leaf@ == self@[leaf_index as int]);
        }
        Ok(Proof { leaf, index: leaf_index, path, root })
    }
}

} // verus!
