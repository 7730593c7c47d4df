//! Tests of the merkle accumulator, the prover tree and the builder.

use merkle_builder::{
    Digest, IncrementalMerkle, MerkleTreeBuilder, MerkleTreeBuilderError, Prover, ProverError,
};

fn digest_from_hex(s: &str) -> Digest {
    let mut bytes = [0u8; 32];
    for (i, slot) in bytes.iter_mut().enumerate() {
        *slot = u8::from_str_radix(&s[2 * i..2 * i + 2], 16).unwrap();
    }
    Digest::new(bytes)
}

fn leaf(fill: u8) -> Digest {
    Digest::new([fill; 32])
}

/// keccak-256 of 64 zero bytes, computed independently of the library.
fn keccak_of_two_zero_digests() -> Digest {
    let out = <sha3::Keccak256 as sha3::Digest>::digest([0u8; 64]);
    Digest::new(out.into())
}

#[test]
fn zero_digest_hex() {
    assert_eq!(Digest::zero().to_hex(), "0".repeat(64));
    assert_eq!(leaf(0xab).to_hex(), "ab".repeat(32));
    assert_eq!(
        digest_from_hex(&"ab".repeat(32)).to_hex(),
        "ab".repeat(32)
    );
}

#[test]
fn empty_tree_root_is_keccak_of_zeroes() {
    // The root of an empty depth-1 tree is the hash of two zero leaves; its
    // well-known keccak-256 value pins the hash oracle down.
    let expected = "ad3228b676f7d3cd4284a5443f17f1962b36e491b30a40b2405849e597ba5fb5";
    let p = Prover::with_depth(1);
    assert_eq!(p.root().to_hex(), expected);
    assert_eq!(p.root(), keccak_of_two_zero_digests());
    let i = IncrementalMerkle::with_depth(1);
    assert_eq!(i.root().to_hex(), expected);
}

#[test]
fn roots_agree_after_every_step() {
    let mut b = MerkleTreeBuilder::new();
    let leaves = [leaf(1), leaf(2), leaf(3), leaf(4), leaf(5)];
    for (step, l) in leaves.iter().enumerate() {
        b.ingest_message_id(*l).unwrap();
        assert_eq!(b.prover.count(), step as u64 + 1);
        assert_eq!(b.incremental.count(), step as u64 + 1);
        assert!(b.prover.root().eq_digest(&b.incremental.root()));
    }
}

#[test]
fn queries_are_idempotent() {
    let mut b = MerkleTreeBuilder::new();
    b.ingest_message_id(leaf(7)).unwrap();
    b.ingest_message_id(leaf(9)).unwrap();
    assert_eq!(b.count(), b.count());
    assert_eq!(b.prover.root(), b.prover.root());
    assert_eq!(b.incremental.root(), b.incremental.root());
}

#[test]
fn count_rises_by_one_per_ingest() {
    let mut b = MerkleTreeBuilder::new();
    assert_eq!(b.count(), 0);
    for n in 1u32..=4 {
        b.ingest_message_id(leaf(n as u8)).unwrap();
        assert_eq!(b.count(), n);
    }
}

#[test]
fn scenario_three_leaves() {
    let mut b = MerkleTreeBuilder::new();
    b.ingest_message_id(leaf(0x10)).unwrap();
    let root_after_one = b.prover.root();
    b.ingest_message_id(leaf(0x20)).unwrap();
    b.ingest_message_id(leaf(0x30)).unwrap();
    assert_eq!(b.count(), 3);
    let root_after_three = b.prover.root();

    let proof = b.get_proof(0, 2).unwrap();
    assert_eq!(proof.index, 0);
    assert_eq!(proof.leaf, leaf(0x10));
    assert_eq!(proof.root, root_after_three);
    assert_eq!(proof.computed_root(), root_after_three);

    let early = b.get_proof(0, 0).unwrap();
    assert_eq!(early.root, root_after_one);
    assert_eq!(early.computed_root(), root_after_one);

    for leaf_index in 0..3 {
        let p = b.get_proof(leaf_index, 2).unwrap();
        assert_eq!(p.computed_root(), root_after_three);
    }
}

#[test]
fn full_tree_rejects_ingestion_and_keeps_state() {
    let mut b = MerkleTreeBuilder::with_depth(2);
    for n in 1..=4u8 {
        b.ingest_message_id(leaf(n)).unwrap();
    }
    let root_before = b.prover.root();
    let r = b.ingest_message_id(leaf(5));
    assert!(matches!(
        r,
        Err(MerkleTreeBuilderError::ProverError(ProverError::TreeFull))
    ));
    assert_eq!(b.count(), 4);
    assert_eq!(b.prover.root(), root_before);
    assert!(b.incremental.root().eq_digest(&root_before));
}

#[test]
fn bad_proof_requests_are_rejected() {
    let mut b = MerkleTreeBuilder::new();
    b.ingest_message_id(leaf(1)).unwrap();
    b.ingest_message_id(leaf(2)).unwrap();
    b.ingest_message_id(leaf(3)).unwrap();

    // The leaf lies after the checkpoint.
    assert!(matches!(
        b.get_proof(2, 1),
        Err(MerkleTreeBuilderError::ProverError(
            ProverError::InvalidProofRequest { leaf_index: 2, root_index: 1 }
        ))
    ));
    // The checkpoint lies beyond the tree.
    assert!(matches!(
        b.get_proof(0, 3),
        Err(MerkleTreeBuilderError::ProverError(
            ProverError::InvalidProofRequest { leaf_index: 0, root_index: 3 }
        ))
    ));
}

#[test]
fn forced_divergence_surfaces_mismatched_roots() {
    let mut b = MerkleTreeBuilder::new();
    b.ingest_message_id(leaf(1)).unwrap();
    // Corrupt the accumulator behind the builder's back.
    b.incremental.ingest(leaf(2)).unwrap();
    let r = b.ingest_message_id(leaf(3));
    match r {
        Err(MerkleTreeBuilderError::MismatchedRoots { prover_root, incremental_root }) => {
            assert_eq!(prover_root.len(), 64);
            assert_eq!(incremental_root.len(), 64);
            assert_ne!(prover_root, incremental_root);
            assert_eq!(prover_root, b.prover.root().to_hex());
            assert_eq!(incremental_root, b.incremental.root().to_hex());
        },
        other => panic!("expected mismatched roots, got {:?}", other.is_ok()),
    }
}

#[test]
fn render_shows_both_trees() {
    let mut b = MerkleTreeBuilder::new();
    b.ingest_message_id(leaf(0x42)).unwrap();
    let s = b.render();
    let root_hex = b.prover.root().to_hex();
    assert_eq!(
        s,
        format!(
            "MerkleTreeBuilder {{ incremental: {{ root: 0x{}, size: 1 }}, prover: {{ root: 0x{}, size: 1 }} }}",
            root_hex, root_hex
        )
    );
}

#[test]
fn historical_roots_are_frozen() {
    // The proof against an old checkpoint folds to the old root even after
    // the tree has grown past it.
    let mut b = MerkleTreeBuilder::new();
    b.ingest_message_id(leaf(0xa1)).unwrap();
    b.ingest_message_id(leaf(0xa2)).unwrap();
    let root_two = b.prover.root();
    b.ingest_message_id(leaf(0xa3)).unwrap();
    b.ingest_message_id(leaf(0xa4)).unwrap();
    let p = b.get_proof(1, 1).unwrap();
    assert_eq!(p.root, root_two);
    assert_eq!(p.computed_root(), root_two);
    assert_ne!(b.prover.root(), root_two);
}

#[test]
fn decimal_rendering() {
    assert_eq!(merkle_builder::text::u64_to_dec(0), "0");
    assert_eq!(merkle_builder::text::u64_to_dec(7), "7");
    assert_eq!(merkle_builder::text::u64_to_dec(1234567890), "1234567890");
}

#[test]
fn eq_digest_compares_bytes() {
    assert!(leaf(3).eq_digest(&leaf(3)));
    assert!(!leaf(3).eq_digest(&leaf(4)));
}
