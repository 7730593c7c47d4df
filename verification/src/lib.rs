//! Merkle accumulator and proof builder for a cross-chain message relayer.
//!
//! The library keeps two representations of one append-only merkle tree of
//! 32-byte message digests in agreement: a compact incremental accumulator
//! mirroring the on-chain contract, and a full prover tree able to produce
//! inclusion proofs against any historical root. A builder owns one of each,
//! checks their roots after every ingestion, and serves proof requests.
//! A chain-domain registry maps chain names to domain identifiers.

pub mod builder;
pub mod chain;
pub mod digest;
pub mod error;
pub mod incremental;
pub mod prover;
pub mod text;
pub mod tree;

pub use builder::MerkleTreeBuilder;
pub use chain::{domain_id_from_name, name_from_domain_id, HyperlaneDomain, HyperlaneDomainType};
pub use digest::Digest;
pub use error::{MerkleTreeBuilderError, ProverError};
pub use incremental::IncrementalMerkle;
pub use prover::{Proof, Prover};
