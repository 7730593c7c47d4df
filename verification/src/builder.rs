//! The merkle tree builder.
//!
//! Owns one prover tree and one incremental accumulator, feeds every ingested
//! message digest to both, and checks after each ingestion that their roots
//! agree; a disagreement is surfaced as a fatal error carrying both roots.
//! Proof requests are delegated to the prover tree.

use vstd::prelude::*;
use vstd::arithmetic::power2::pow2;
use vstd::string::StringExecFns;
use crate::digest::Digest;
use crate::error::{MerkleTreeBuilderError, ProverError};
use crate::incremental::IncrementalMerkle;
use crate::prover::{Proof, Prover};
use crate::text::{dec_seq, hex_seq, u64_to_dec};
use crate::tree::{digests_view, fold_path, path_spec, subtree_hash, MAX_DEPTH};

verus! {

/// Owns the two tree representations and enforces their mutual consistency.
pub struct MerkleTreeBuilder {
    /// The full prover tree: the authoritative leaf count and proof source.
    pub prover: Prover,
    /// The compact accumulator mirroring the on-chain tree.
    pub incremental: IncrementalMerkle,
}

impl MerkleTreeBuilder {
    /// Both representations hold the same leaves under the same depth.
    pub open spec fn synced(&self) -> bool {
        self.prover@ == self.incremental@ && self.prover.depth_spec()
            == self.incremental.depth_spec()
    }

    /// An empty builder over trees of the given maximum depth.
    pub fn with_depth(depth: usize) -> (b: MerkleTreeBuilder)
        requires
            1 <= depth <= MAX_DEPTH,
        ensures
            b.prover@ == Seq::<Seq<u8>>::empty(),
            b.incremental@ == Seq::<Seq<u8>>::empty(),
            b.prover.depth_spec() == depth,
            b.synced(),
    {
        MerkleTreeBuilder {
            prover: Prover::with_depth(depth),
            incremental: IncrementalMerkle::with_depth(depth),
        }
    }

    /// An empty builder at the greatest supported depth.
    pub fn new() -> (b: MerkleTreeBuilder)
        ensures
            b.prover@ == Seq::<Seq<u8>>::empty(),
            b.incremental@ == Seq::<Seq<u8>>::empty(),
            b.prover.depth_spec() == MAX_DEPTH,
            b.synced(),
    {
        MerkleTreeBuilder { prover: Prover::new(), incremental: IncrementalMerkle::new() }
    }

    /// The number of ingested leaves, as the prover tree counts them.
    pub fn count(&self) -> (c: u32)
        ensures
            self.prover@.len() <= u32::MAX ==> c == self.prover@.len(),
    {
        #[verifier::truncate]
        (self.prover.count() as u32)
    }

    /// Ingests one message digest into the prover tree and then into the
    /// accumulator, and checks that the two roots still agree. A full prover
    /// tree fails before anything is touched; a root disagreement is fatal
    /// and carries both roots in hexadecimal.
    pub fn ingest_message_id(&mut self, message_id: Digest) -> (r: Result<
        (),
        MerkleTreeBuilderError,
    >)
        ensures
            final(self).prover.depth_spec() == old(self).prover.depth_spec(),
            final(self).incremental.depth_spec() == old(self).incremental.depth_spec(),
            old(self).synced() && old(self).prover@.len() < pow2(old(self).prover.depth_spec())
                ==> r is Ok && final(self).synced(),
            // The count never falls, and rises by exactly one on success.
            old(self).prover@.len() <= final(self).prover@.len() <= old(self).prover@.len() + 1,
            old(self).incremental@.len() <= final(self).incremental@.len() <= old(
                self,
            ).incremental@.len() + 1,
            r is Ok ==> final(self).prover@.len() == old(self).prover@.len() + 1,
            match r {
                Ok(()) => {
                    &&& old(self).prover@.len() < pow2(old(self).prover.depth_spec())
                    &&& final(self).prover@ == old(self).prover@ + seq![message_id@]
                    &&& final(self).incremental@ == old(self).incremental@ + seq![message_id@]
                    &&& subtree_hash(final(self).prover@, final(self).prover.depth_spec(), 0)
                        == subtree_hash(
                        final(self).incremental@,
                        final(self).incremental.depth_spec(),
                        0,
                    )
                },
                Err(MerkleTreeBuilderError::ProverError(e)) => {
                    &&& e == ProverError::TreeFull
                    &&& {
                        ||| (old(self).prover@.len() == pow2(old(self).prover.depth_spec())
                            && *final(self) == *old(self))
                        ||| (old(self).incremental@.len() == pow2(
                            old(self).incremental.depth_spec(),
                        ) && final(self).prover@ == old(self).prover@ + seq![message_id@]
                            && final(self).incremental@ == old(self).incremental@)
                    }
                },
                Err(MerkleTreeBuilderError::MismatchedRoots { prover_root, incremental_root }) => {
                    &&& final(self).prover@ == old(self).prover@ + seq![message_id@]
                    &&& final(self).incremental@ == old(self).incremental@ + seq![message_id@]
                    &&& subtree_hash(final(self).prover@, final(self).prover.depth_spec(), 0)
                        != subtree_hash(
                        final(self).incremental@,
                        final(self).incremental.depth_spec(),
                        0,
                    )
                    &&& prover_root@ == hex_seq(
                        subtree_hash(final(self).prover@, final(self).prover.depth_spec(), 0),
                    )
                    &&& incremental_root@ == hex_seq(
                        subtree_hash(
                            final(self).incremental@,
                            final(self).incremental.depth_spec(),
                            0,
                        ),
                    )
                },
                Err(MerkleTreeBuilderError::UpstreamError(_)) => false,
            },
    {
        match self.prover.ingest(message_id) {
            Ok(()) => (),
            Err(e) => {
                return Err(MerkleTreeBuilderError::ProverError(e));
            },
        }
        match self.incremental.ingest(message_id) {
            Ok(()) => (),
            Err(e) => {
                return Err(MerkleTreeBuilderError::ProverError(e));
            },
        }
        let prover_root = self.prover.root();
        let incremental_root = self.incremental.root();
        if !prover_root.eq_digest(&incremental_root) {
            return Err(MerkleTreeBuilderError::MismatchedRoots {
                prover_root: prover_root.to_hex(),
                incremental_root: incremental_root.to_hex(),
            });
        }
        Ok(())
    }

    /// An inclusion proof for the leaf at `leaf_index` against the root the
    /// tree had when it held exactly `root_index + 1` leaves.
    pub fn get_proof(&self, leaf_index: u32, root_index: u32) -> (r: Result<
        Proof,
        MerkleTreeBuilderError,
    >)
        ensures
            r is Ok <==> leaf_index <= root_index && (root_index as nat) < self.prover@.len(),
            match r {
                Ok(p) => {
                    &&& p.index == leaf_index
                    &&& p.leaf@ == self.prover@[leaf_index as int]
                    &&& p.path@.len() == self.prover.depth_spec()
                    &&& digests_view(p.path@) == path_spec(
                        self.prover@.take(root_index as int + 1),
                        leaf_index as nat,
                        self.prover.depth_spec(),
                    )
                    &&& p.root@ == subtree_hash(
                        self.prover@.take(root_index as int + 1),
                        self.prover.depth_spec(),
                        0,
                    )
                    &&& fold_path(p.leaf@, leaf_index as nat, digests_view(p.path@)) == p.root@
                },
                Err(e) => e == MerkleTreeBuilderError::ProverError(
                    ProverError::InvalidProofRequest {
                        leaf_index: leaf_index as u64,
                        root_index: root_index as u64,
                    },
                ),
            },
    {
        match self.prover.prove_against_previous(leaf_index as u64, root_index as u64) {
            Ok(p) => Ok(p),
            Err(e) => Err(MerkleTreeBuilderError::ProverError(e)),
        }
    }

    /// A one-line rendering of both trees' root and size, for logs.
    pub fn render(&self) -> (r: String)
        ensures
            r@ == "MerkleTreeBuilder { incremental: { root: 0x"@ + hex_seq(
                subtree_hash(self.incremental@, self.incremental.depth_spec(), 0),
            ) + ", size: "@ + dec_seq(self.incremental@.len()) + " }, prover: { root: 0x"@
                + hex_seq(subtree_hash(self.prover@, self.prover.depth_spec(), 0)) + ", size: "@
                + dec_seq(self.prover@.len()) + " } }"@,
    {
        let prover_root = self.prover.root();
        let prover_count = self.prover.count();
        let incremental_root = self.incremental.root();
        let incremental_count = self.incremental.count();
        let mut s = String::from_str("MerkleTreeBuilder { incremental: { root: 0x");
        s.append(incremental_root.to_hex().as_str());
        s.append(", size: ");
        s.append(u64_to_dec(incremental_count).as_str());
        s.append(" }, prover: { root: 0x");
        s.append(prover_root.to_hex().as_str());
        s.append(", size: ");
        s.append(u64_to_dec(prover_count).as_str());
        s.append(" } }");
        s
    }
}

/// Two representations holding the same leaves under the same depth have the
/// same root and the same count.
pub proof fn lemma_synced_trees_agree(b: &MerkleTreeBuilder)
    requires
        b.synced(),
    ensures
        subtree_hash(b.prover@, b.prover.depth_spec(), 0) == subtree_hash(
            b.incremental@,
            b.incremental.depth_spec(),
            0,
        ),
        b.prover@.len() == b.incremental@.len(),
{
}

/// Root and count queries are idempotent: without an intervening ingestion,
/// any two results allowed by their contracts are identical, each being
/// pinned to the current state alone.
pub proof fn lemma_queries_idempotent(
    b: &MerkleTreeBuilder,
    root1: Seq<u8>,
    root2: Seq<u8>,
    count1: u64,
    count2: u64,
)
    requires
        root1 == subtree_hash(b.prover@, b.prover.depth_spec(), 0),
        root2 == subtree_hash(b.prover@, b.prover.depth_spec(), 0),
        count1 as nat == b.prover@.len(),
        count2 as nat == b.prover@.len(),
    ensures
        root1 == root2,
        count1 == count2,
{
}

} // verus!
