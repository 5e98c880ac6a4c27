//! Outer state, export accumulator and commitment tests.

use moho::constants::MAX_EXPORT_ENTRIES;
use moho::errors::ExportStateError;
use moho::id::InnerStateCommitment;
use moho::predicate::PredicateKey;
use moho::ssz_merkle_utils::SszFieldMerkle;
use moho::state::{ExportContainer, ExportState, MohoState};
use sha2::{Digest, Sha256};

fn h2(left: &[u8; 32], right: &[u8; 32]) -> [u8; 32] {
    let mut hasher = Sha256::new();
    hasher.update(left);
    hasher.update(right);
    hasher.finalize().into()
}

fn le64_chunk(n: u64) -> [u8; 32] {
    let mut c = [0u8; 32];
    c[..8].copy_from_slice(&n.to_le_bytes());
    c
}

fn manual_byte_list_root(bytes: &[u8], limit: usize) -> [u8; 32] {
    let mut level: Vec<[u8; 32]> = bytes
        .chunks(32)
        .map(|c| {
            let mut chunk = [0u8; 32];
            chunk[..c.len()].copy_from_slice(c);
            chunk
        })
        .collect();
    level.resize(limit, [0u8; 32]);
    while level.len() > 1 {
        level = level.chunks(2).map(|p| h2(&p[0], &p[1])).collect();
    }
    h2(&level[0], &le64_chunk(bytes.len() as u64))
}

/// The root of `2^depth` zero chunks.
fn zero_tree_root(depth: usize) -> [u8; 32] {
    let mut z = [0u8; 32];
    for _ in 0..depth {
        z = h2(&z, &z);
    }
    z
}

#[test]
fn test_add_entry() {
    let mut container = ExportContainer::new(1, vec![]);
    let empty_entries = container.entries().clone();

    let entry = [0xAA; 32];
    container.add_entry(entry).unwrap();
    // The accumulator must have changed after adding an entry.
    assert_ne!(container.entries(), &empty_entries);
    assert_eq!(container.entries(), &vec![[0xAA; 32]]);
}

#[test]
fn state_test_add_entry() {
    let container1 = ExportContainer::new(1, vec![]);
    let container2 = ExportContainer::new(2, vec![]);
    let mut state = ExportState::new(vec![container1, container2]);

    let initial_entries = state.containers()[0].entries().clone();
    let entry = [0xFF; 32];
    state.add_entry(1, entry).unwrap();

    let containers = state.containers();
    // The accumulator must have changed after adding an entry.
    assert_ne!(containers[0].entries(), &initial_entries);
    assert_eq!(containers[1].entries().len(), 0);
}

#[test]
fn add_entry_creates_missing_container() {
    let mut state = ExportState::new(vec![]);
    state.add_entry(7, [0x01; 32]).unwrap();
    assert_eq!(state.containers().len(), 1);
    assert_eq!(state.containers()[0].container_id(), 7);
    assert_eq!(state.containers()[0].entries(), &vec![[0x01; 32]]);

    // A second entry under the same id appends; no second container appears.
    state.add_entry(7, [0x02; 32]).unwrap();
    assert_eq!(state.containers().len(), 1);
    assert_eq!(state.containers()[0].entries(), &vec![[0x01; 32], [0x02; 32]]);
}

#[test]
fn add_entry_capacity_exceeded() {
    let mut container = ExportContainer::new(1, vec![]);
    for i in 0..MAX_EXPORT_ENTRIES {
        let mut e = [0u8; 32];
        e[..8].copy_from_slice(&(i as u64).to_le_bytes());
        container.add_entry(e).unwrap();
    }
    assert_eq!(container.add_entry([0xEE; 32]), Err(ExportStateError::AddEntryFailed));
    assert_eq!(container.entries().len(), MAX_EXPORT_ENTRIES);
}

#[test]
fn test_accessors() {
    let inner = InnerStateCommitment::new([0xCD; 32]);
    let predicate = PredicateKey::always_accept();
    let export = ExportState::new(vec![]);
    let state = MohoState::new(inner, predicate.clone(), export);

    assert_eq!(state.inner_state().inner(), &[0xCD; 32]);
    assert_eq!(state.next_predicate().to_bytes(), predicate.to_bytes());
    assert_eq!(state.export_state().containers().len(), 0);
}

#[test]
fn test_into_export_state() {
    let inner = InnerStateCommitment::new([0x00; 32]);
    let predicate = PredicateKey::new(0x01, vec![]).unwrap();
    let container = ExportContainer::new(1, vec![]);
    let export = ExportState::new(vec![container]);
    let state = MohoState::new(inner, predicate, export);

    let extracted_export = state.into_export_state();
    assert_eq!(extracted_export.containers().len(), 1);
    assert_eq!(extracted_export.containers()[0].container_id(), 1);
}

#[test]
fn test_commitment_uniqueness() {
    let inner1 = InnerStateCommitment::new([0x01; 32]);
    let inner2 = InnerStateCommitment::new([0x02; 32]);
    let predicate = PredicateKey::new(0x01, vec![]).unwrap();
    let export = ExportState::new(vec![]);

    let state1 = MohoState::new(inner1, predicate.clone(), export.clone());
    let state2 = MohoState::new(inner2, predicate, export);

    let commitment1 = state1.compute_commitment();
    let commitment2 = state2.compute_commitment();

    assert_ne!(commitment1.inner(), commitment2.inner());
}

#[test]
fn commitment_unequal_on_other_fields() {
    // Structurally unequal states differ in their commitments, whichever
    // field differs.
    let base = || {
        MohoState::new(
            InnerStateCommitment::new([9u8; 32]),
            PredicateKey::always_accept(),
            ExportState::new(vec![]),
        )
    };
    let with_other_pred = MohoState::new(
        InnerStateCommitment::new([9u8; 32]),
        PredicateKey::never_accept(),
        ExportState::new(vec![]),
    );
    let with_exports = MohoState::new(
        InnerStateCommitment::new([9u8; 32]),
        PredicateKey::always_accept(),
        ExportState::new(vec![ExportContainer::new(3, vec![[5u8; 32]])]),
    );
    let c = base().compute_commitment();
    assert_ne!(c.inner(), with_other_pred.compute_commitment().inner());
    assert_ne!(c.inner(), with_exports.compute_commitment().inner());
}

#[test]
fn commitment_deterministic() {
    // Two independent computations of the commitment return equal bytes.
    let state = MohoState::new(
        InnerStateCommitment::new([0x42; 32]),
        PredicateKey::always_accept(),
        ExportState::new(vec![ExportContainer::new(1, vec![[0xAB; 32], [0xCD; 32]])]),
    );
    assert_eq!(state.compute_commitment().inner(), state.compute_commitment().inner());

    let twin = MohoState::new(
        InnerStateCommitment::new([0x42; 32]),
        PredicateKey::always_accept(),
        ExportState::new(vec![ExportContainer::new(1, vec![[0xAB; 32], [0xCD; 32]])]),
    );
    assert_eq!(state.compute_commitment().inner(), twin.compute_commitment().inner());
}

#[test]
fn commitment_exact_value() {
    // The whole commitment computed independently with sha2 alone.
    let state = MohoState::new(
        InnerStateCommitment::new([0u8; 32]),
        PredicateKey::always_accept(),
        ExportState::new(vec![]),
    );

    let inner_leaf = [0u8; 32];
    // always-accept predicate encodes to its single kind tag
    let pred_leaf = manual_byte_list_root(&[1u8], 8);
    // empty export state: 256 zero leaves, count 0 mixed in
    let exports_leaf = h2(&zero_tree_root(8), &le64_chunk(0));
    let expected = h2(&h2(&inner_leaf, &pred_leaf), &h2(&exports_leaf, &[0u8; 32]));

    assert_eq!(state.compute_commitment().inner(), &expected);
}

#[test]
fn field_inclusion_sound_and_binding() {
    let state = MohoState::new(
        InnerStateCommitment::new([0x33; 32]),
        PredicateKey::always_accept(),
        ExportState::new(vec![ExportContainer::new(2, vec![[1u8; 32]])]),
    );
    let commitment = state.compute_commitment();
    let roots = state.field_roots();
    for i in 0..3usize {
        // Soundness: a generated proof for each field verifies.
        let proof = SszFieldMerkle::generate_proof(&roots, i);
        assert!(SszFieldMerkle::verify_proof(commitment.inner(), &proof, &roots[i]));
        // Strict binding: a leaf differing in one bit fails.
        let mut tampered = roots[i];
        tampered[31] ^= 0x80;
        assert!(!SszFieldMerkle::verify_proof(commitment.inner(), &proof, &tampered));
    }
}
