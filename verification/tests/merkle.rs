//! Merkle tree and field-inclusion tests.

use moho::merkle::{MerkleProof, MerkleTree};
use moho::ssz_merkle_utils::SszFieldMerkle;
use sha2::{Digest, Sha256};

fn h2(left: &[u8; 32], right: &[u8; 32]) -> [u8; 32] {
    let mut hasher = Sha256::new();
    hasher.update(left);
    hasher.update(right);
    hasher.finalize().into()
}

fn le64_chunk(n: u64) -> [u8; 32] {
    let mut c = [0u8; 32];
    c[..8].copy_from_slice(&n.to_le_bytes());
    c
}

/// Root of a byte string packed into chunks, padded to `limit` chunks, with
/// the length mixed in: computed here independently with sha2 alone.
fn manual_byte_list_root(bytes: &[u8], limit: usize) -> [u8; 32] {
    let mut level: Vec<[u8; 32]> = bytes
        .chunks(32)
        .map(|c| {
            let mut chunk = [0u8; 32];
            chunk[..c.len()].copy_from_slice(c);
            chunk
        })
        .collect();
    level.resize(limit, [0u8; 32]);
    while level.len() > 1 {
        level = level.chunks(2).map(|p| h2(&p[0], &p[1])).collect();
    }
    h2(&level[0], &le64_chunk(bytes.len() as u64))
}

#[test]
fn test_merkle_tree_single_leaf() {
    let leaves = vec![[1u8; 32]];
    let root = MerkleTree::compute_root(&leaves);

    let proof = MerkleTree::generate_proof(&leaves, 0);
    assert!(MerkleTree::verify_proof(&root, &proof, &leaves[0]));
}

#[test]
fn test_merkle_tree_three_leaves() {
    let leaves = vec![[1u8; 32], [2u8; 32], [3u8; 32]];
    let root = MerkleTree::compute_root(&leaves);

    // Test proof for each leaf
    for (i, leaf) in leaves.iter().enumerate() {
        let proof = MerkleTree::generate_proof(&leaves, i);
        assert!(MerkleTree::verify_proof(&root, &proof, leaf));
    }
}

#[test]
fn test_merkle_tree_power_of_two() {
    let leaves = vec![[1u8; 32], [2u8; 32], [3u8; 32], [4u8; 32]];
    let root = MerkleTree::compute_root(&leaves);

    // Test proof for each leaf
    for (i, leaf) in leaves.iter().enumerate() {
        let proof = MerkleTree::generate_proof(&leaves, i);
        assert!(MerkleTree::verify_proof(&root, &proof, leaf));
    }
}

#[test]
fn merkle_root_exact_value() {
    // One exact expected value, computed independently with sha2 alone.
    let leaves = vec![[1u8; 32], [2u8; 32], [3u8; 32]];
    let expected = h2(&h2(&[1u8; 32], &[2u8; 32]), &h2(&[3u8; 32], &[0u8; 32]));
    assert_eq!(MerkleTree::compute_root(&leaves), expected);

    // An empty tree hashes to the zero chunk; a single leaf is its own root.
    assert_eq!(MerkleTree::compute_root(&[]), [0u8; 32]);
    assert_eq!(MerkleTree::compute_root(&[[7u8; 32]]), [7u8; 32]);
}

#[test]
fn merkle_test_ssz_simple3_container_root_and_proofs() {
    // A container of three 32-byte fields: its SSZ tree-hash root, computed
    // manually, must equal the Merkle root over the three field roots.
    let a = [0x11u8; 32];
    let b = [0x22u8; 32];
    let c = [0x33u8; 32];
    let ssz_root = h2(&h2(&a, &b), &h2(&c, &[0u8; 32]));

    let leaves = vec![a, b, c];
    let manual_root = MerkleTree::compute_root(&leaves);
    assert_eq!(ssz_root, manual_root);

    // Proofs for each field
    for (i, leaf) in leaves.iter().enumerate() {
        let proof = MerkleTree::generate_proof(&leaves, i);
        assert!(MerkleTree::verify_proof(&ssz_root, &proof, leaf));
    }
}

#[test]
fn merkle_test_ssz_withlist_container_root_and_proofs() {
    // A container holding a variable-length byte list: the list's field root
    // carries a length mix-in, computed manually here.
    let head = [0xAAu8; 32];
    let data = vec![1u8, 3, 3, 7, 0, 9, 9];
    let tail = [0xBBu8; 32];

    let data_root = manual_byte_list_root(&data, 256 / 32);
    let leaves = vec![head, data_root, tail];
    let ssz_root = h2(&h2(&head, &data_root), &h2(&tail, &[0u8; 32]));
    let manual_root = MerkleTree::compute_root(&leaves);
    assert_eq!(ssz_root, manual_root);

    for (i, leaf) in leaves.iter().enumerate() {
        let proof = MerkleTree::generate_proof(&leaves, i);
        assert!(MerkleTree::verify_proof(&ssz_root, &proof, leaf));
    }
}

#[test]
fn merkle_test_ssz_nested_container_root_and_proofs() {
    // A container of containers: the nested field roots are the children's
    // own roots.
    let left_root = {
        let a = [0x01u8; 32];
        let b = [0x02u8; 32];
        let c = [0x03u8; 32];
        h2(&h2(&a, &b), &h2(&c, &[0u8; 32]))
    };
    let payload_root = {
        let head = [0xAAu8; 32];
        let data = vec![1u8, 3, 3, 7, 0, 9, 9];
        let tail = [0xBBu8; 32];
        let data_root = manual_byte_list_root(&data, 256 / 32);
        h2(&h2(&head, &data_root), &h2(&tail, &[0u8; 32]))
    };
    let right = [0xFFu8; 32];

    let leaves = vec![left_root, payload_root, right];
    let ssz_root = h2(&h2(&left_root, &payload_root), &h2(&right, &[0u8; 32]));
    let manual_root = MerkleTree::compute_root(&leaves);
    assert_eq!(ssz_root, manual_root);

    for (i, leaf) in leaves.iter().enumerate() {
        let proof = MerkleTree::generate_proof(&leaves, i);
        assert!(MerkleTree::verify_proof(&ssz_root, &proof, leaf));
    }
}

#[test]
fn ssz_field_merkle_generate_and_verify() {
    let leaves = vec![[4u8; 32], [5u8; 32], [6u8; 32]];
    let root = MerkleTree::compute_root(&leaves);
    for (i, leaf) in leaves.iter().enumerate() {
        let proof = SszFieldMerkle::generate_proof(&leaves, i);
        assert!(SszFieldMerkle::verify_proof(&root, &proof, leaf));
    }
}

#[test]
fn merkle_proof_rejects_other_leaf() {
    // Strict binding: any other 32-byte leaf fails under the same branch.
    let leaves = vec![[1u8; 32], [2u8; 32], [3u8; 32]];
    let root = MerkleTree::compute_root(&leaves);
    let proof = MerkleTree::generate_proof(&leaves, 1);
    assert!(MerkleTree::verify_proof(&root, &proof, &leaves[1]));
    let mut tampered = leaves[1];
    tampered[0] ^= 0x01;
    assert!(!MerkleTree::verify_proof(&root, &proof, &tampered));
    assert!(!MerkleTree::verify_proof(&root, &proof, &[0u8; 32]));
}

#[test]
fn merkle_proof_rejects_other_position() {
    // The branch and index jointly locate one position: the same leaf under
    // a shifted index fails.
    let leaves = vec![[1u8; 32], [2u8; 32], [3u8; 32], [4u8; 32]];
    let root = MerkleTree::compute_root(&leaves);
    let proof = MerkleTree::generate_proof(&leaves, 2);
    assert!(MerkleTree::verify_proof(&root, &proof, &leaves[2]));
    let moved = MerkleProof { path: proof.path.clone(), leaf_index: 3 };
    assert!(!MerkleTree::verify_proof(&root, &moved, &leaves[2]));
}

#[test]
fn ssz_merkle_utils_test_ssz_simple3_container_root_and_proofs() {
    let a = [0x11u8; 32];
    let b = [0x22u8; 32];
    let c = [0x33u8; 32];
    let ssz_root = h2(&h2(&a, &b), &h2(&c, &[0u8; 32]));

    // Build proofs against the container root using field roots as leaves
    let leaves = vec![a, b, c];
    for (i, leaf) in leaves.iter().enumerate() {
        let proof = SszFieldMerkle::generate_proof(&leaves, i);
        assert!(SszFieldMerkle::verify_proof(&ssz_root, &proof, leaf));
    }
}

#[test]
fn ssz_merkle_utils_test_ssz_withlist_container_root_and_proofs() {
    let head = [0xAAu8; 32];
    let data = vec![1u8, 3, 3, 7, 0, 9, 9];
    let tail = [0xBBu8; 32];

    let data_root = manual_byte_list_root(&data, 256 / 32);
    let leaves = vec![head, data_root, tail];
    let ssz_root = h2(&h2(&head, &data_root), &h2(&tail, &[0u8; 32]));
    for (i, leaf) in leaves.iter().enumerate() {
        let proof = SszFieldMerkle::generate_proof(&leaves, i);
        assert!(SszFieldMerkle::verify_proof(&ssz_root, &proof, leaf));
    }
}

#[test]
fn ssz_merkle_utils_test_ssz_nested_container_root_and_proofs() {
    let left_root = {
        let a = [0x01u8; 32];
        let b = [0x02u8; 32];
        let c = [0x03u8; 32];
        h2(&h2(&a, &b), &h2(&c, &[0u8; 32]))
    };
    let payload_root = {
        let head = [0xAAu8; 32];
        let data = vec![1u8, 3, 3, 7, 0, 9, 9];
        let tail = [0xBBu8; 32];
        let data_root = manual_byte_list_root(&data, 256 / 32);
        h2(&h2(&head, &data_root), &h2(&tail, &[0u8; 32]))
    };
    let right = [0xFFu8; 32];

    let leaves = vec![left_root, payload_root, right];
    let ssz_root = h2(&h2(&left_root, &payload_root), &h2(&right, &[0u8; 32]));
    for (i, leaf) in leaves.iter().enumerate() {
        let proof = SszFieldMerkle::generate_proof(&leaves, i);
        assert!(SszFieldMerkle::verify_proof(&ssz_root, &proof, leaf));
    }
}
