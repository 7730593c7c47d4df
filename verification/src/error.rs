//! The error taxonomy of the tree components and the builder.

use vstd::prelude::*;

verus! {

/// Failures of a tree operation.
#[derive(Clone, Copy, Debug, PartialEq, Eq, Structural)]
pub enum ProverError {
    /// The tree already holds its full complement of leaves; this instance
    /// can take no further ingestion.
    TreeFull,
    /// A proof was requested for indices naming no historical leaf: the leaf
    /// lies after the checkpoint, or the checkpoint lies beyond the tree.
    InvalidProofRequest { leaf_index: u64, root_index: u64 },
}

/// Failures surfaced by the builder.
#[derive(Debug)]
pub enum MerkleTreeBuilderError {
    /// The two tree representations disagree after an ingestion. Fatal for
    /// this builder: any proof generated afterwards may be invalid. Carries
    /// both roots in hexadecimal for diagnostics.
    MismatchedRoots { prover_root: String, incremental_root: String },
    /// A tree operation failed.
    ProverError(ProverError),
    /// Propagated from a chain-communication or persistence collaborator;
    /// never produced by this crate's own operations.
    UpstreamError(String),
}

} // verus!
