//! SSZ container-field inclusion helpers.
//!
//! Helpers to generate and verify inclusion proofs for SSZ container field
//! roots, using SHA-256 over 32-byte chunks with zero-chunk padding to the
//! next power of two.  Internal nodes are `sha256(left || right)`.
//!
//! What this is:
//! - Proving inclusion of a field root within a container's SSZ tree-hash root.
//!
//! What this is NOT:
//! - A generalized-index (gindex) proof.  A simple 0-based leaf index is used.
//! - A proof for list element membership.  For lists, the leaf must be the SSZ
//!   field root of the entire list (including any length mix-in), not an
//!   element.

use vstd::prelude::*;
use crate::hash::{sha256_pair, sha256_pair_hash, zero_chunk};
use crate::merkle::{
    fold_branch, fold_path, is_pow2, merkle_branch, next_pow2, pad_to, root_from_level, views_of,
    MerkleTree,
};
use crate::hash::eq32;

verus! {

/// The bytes of `bytes` packed into 32-byte chunks, the last chunk padded
/// with zeros.
pub open spec fn chunk_at(bytes: Seq<u8>, i: int) -> Seq<u8> {
    Seq::new(32, |j: int| if 32 * i + j < bytes.len() { bytes[32 * i + j] } else { 0u8 })
}

/// The chunks of a byte string: `ceil(len / 32)` chunks of 32 bytes.
pub open spec fn spec_chunks_of(bytes: Seq<u8>) -> Seq<Seq<u8>> {
    Seq::new((bytes.len() + 31) / 32, |i: int| chunk_at(bytes, i))
}

/// A 32-byte chunk holding the 64-bit little-endian value `n` followed by
/// zeros: the SSZ length mix-in chunk.
pub open spec fn spec_le64_chunk(n: u64) -> Seq<u8> {
    Seq::new(32, |j: int| if j < 8 { (n >> (8 * j)) as u8 } else { 0u8 })
}

/// The SSZ hash root of a variable-length byte string with a chunk limit:
/// the chunks are padded with zero chunks to `limit_chunks` (a power of two),
/// merkleized, and the byte length is mixed in.
pub open spec fn spec_byte_list_root(bytes: Seq<u8>, limit_chunks: nat) -> Seq<u8> {
    sha256_pair_hash(
        root_from_level(pad_to(spec_chunks_of(bytes), limit_chunks)),
        spec_le64_chunk(bytes.len() as u64),
    )
}

/// Pack a byte string into 32-byte chunks, zero-padding the last chunk.
pub fn chunks_of(bytes: &[u8]) -> (r: Vec<[u8; 32]>)
    requires
        bytes@.len() <= 0x1000_0000,
    ensures
        views_of(r@) == spec_chunks_of(bytes@),
{
    let n_chunks = (bytes.len() + 31) / 32;
    let mut r: Vec<[u8; 32]> = Vec::new();
    let mut i: usize = 0;
    while i < n_chunks
        invariant
            i <= n_chunks,
            n_chunks == (bytes@.len() + 31) / 32,
            bytes@.len() <= 0x1000_0000,
            r@.len() == i,
            forall|k: int| 0 <= k < i ==> r@[k]@ == chunk_at(bytes@, k),
        decreases n_chunks - i,
    {
        let mut c = [0u8; 32];
        let mut j: usize = 0;
        while j < 32
            invariant
                j <= 32,
                i < n_chunks,
                n_chunks == (bytes@.len() + 31) / 32,
                bytes@.len() <= 0x1000_0000,
                c@.len() == 32,
                forall|k: int| 0 <= k < j ==> c@[k] == chunk_at(bytes@, i as int)[k],
                forall|k: int| j <= k < 32 ==> c@[k] == 0u8,
            decreases 32 - j,
        {
            if 32 * i + j < bytes.len() {
                c[j] = *vstd::slice::slice_index_get(bytes, 32 * i + j);
            }
            j += 1;
        }
        proof {
            assert(c@ =~= chunk_at(bytes@, i as int));
        }
        r.push(c);
        i += 1;
    }
    proof {
        assert(views_of(r@) =~= spec_chunks_of(bytes@));
    }
    r
}

/// The 32-byte SSZ length mix-in chunk for a 64-bit length.
pub fn le64_chunk(n: u64) -> (r: [u8; 32])
    ensures
        r@ == spec_le64_chunk(n),
{
    let r: [u8; 32] = [
        n as u8,
        (n >> 8) as u8,
        (n >> 16) as u8,
        (n >> 24) as u8,
        (n >> 32) as u8,
        (n >> 40) as u8,
        (n >> 48) as u8,
        (n >> 56) as u8,
        0, 0, 0, 0, 0, 0, 0, 0, 0, 0, 0, 0, 0, 0, 0, 0, 0, 0, 0, 0, 0, 0, 0, 0,
    ];
    proof {
        assert(n >> 0 == n) by (bit_vector);
        assert(r@ =~= spec_le64_chunk(n));
    }
    r
}

/// The SSZ hash root of a variable-length byte string under a chunk limit.
///
/// `limit_chunks` must be a power of two no smaller than the number of
/// chunks of `bytes`.
pub fn byte_list_root(bytes: &[u8], limit_chunks: usize) -> (r: [u8; 32])
    requires
        bytes@.len() <= 0x1000_0000,
        is_pow2(limit_chunks as nat),
        limit_chunks <= 0x1000_0000,
        (bytes@.len() + 31) / 32 <= limit_chunks,
    ensures
        r@ == spec_byte_list_root(bytes@, limit_chunks as nat),
{
    let chunks = chunks_of(bytes);
    proof {
        assert(views_of(chunks@).len() == spec_chunks_of(bytes@).len());
    }
    let chunks_root = crate::merkle::compute_padded_root(chunks, limit_chunks);
    let len_chunk = le64_chunk(bytes.len() as u64);
    sha256_pair(&chunks_root, &len_chunk)
}

/// The mathematical value of a leaf-inclusion proof.
pub ghost struct InclusionProofView {
    pub branch: Seq<Seq<u8>>,
    pub leaf_index: u8,
}

/// Inclusion proof for an SSZ-merkleized leaf (field root) under a container
/// root.
#[derive(Debug, PartialEq, Eq)]
pub struct SszLeafInclusionProof {
    /// Bottom-up list of sibling hashes required to reconstruct the root.
    /// The first entry is adjacent to the leaf level.
    pub branch: Vec<[u8; 32]>,
    /// 0-based index of the leaf in the bottom layer.  Not a generalized
    /// index.
    pub leaf_index: u8,
}

impl View for SszLeafInclusionProof {
    type V = InclusionProofView;

    open spec fn view(&self) -> InclusionProofView {
        InclusionProofView { branch: views_of(self.branch@), leaf_index: self.leaf_index }
    }
}

impl Clone for SszLeafInclusionProof {
    /// A clone carries the same branch and leaf index.
    fn clone(&self) -> (r: Self)
        ensures
            r@ == self@,
    {
        let mut branch: Vec<[u8; 32]> = Vec::new();
        let mut i: usize = 0;
        while i < self.branch.len()
            invariant
                i <= self.branch@.len(),
                branch@ =~= self.branch@.take(i as int),
            decreases self.branch@.len() - i,
        {
            branch.push(self.branch[i]);
            i += 1;
        }
        proof {
            assert(branch@ =~= self.branch@);
        }
        SszLeafInclusionProof { branch, leaf_index: self.leaf_index }
    }
}

/// SSZ field-merkleization utilities (stateless; no persistent tree
/// structure).
pub struct SszFieldMerkle;

/// Trait exposing per-field SSZ roots for a container.
pub trait SszFieldRoots {
    /// The field roots, in container field order, as mathematical values.
    spec fn spec_field_roots(&self) -> Seq<Seq<u8>>;

    /// What the container asks of itself before its field roots can be
    /// computed.
    spec fn field_roots_wf(&self) -> bool;

    /// Return SSZ field roots in container field order.
    fn ssz_field_roots(&self) -> (r: Vec<[u8; 32]>)
        requires
            self.field_roots_wf(),
        ensures
            views_of(r@) == self.spec_field_roots(),
            r@.len() <= 256,
    ;
}

impl SszFieldMerkle {
    /// Generate the Merkle branch for a specific leaf index.
    pub fn generate_proof(leaves: &[[u8; 32]], leaf_index: usize) -> (r: SszLeafInclusionProof)
        requires
            leaf_index < leaves@.len(),
            leaves@.len() <= 256,
        ensures
            views_of(r.branch@) == merkle_branch(
                pad_to(views_of(leaves@), next_pow2(leaves@.len())),
                leaf_index as nat,
            ),
            r.leaf_index == leaf_index,
    {
        let branch = MerkleTree::generate_merkle_path(leaves, leaf_index);

        SszLeafInclusionProof { branch, leaf_index: leaf_index as u8 }
    }

    /// Generate a proof from a container by computing its field roots.
    pub fn generate_proof_for_container<C: SszFieldRoots>(container: &C, field_index: usize) -> (r:
        SszLeafInclusionProof)
        requires
            container.field_roots_wf(),
            field_index < container.spec_field_roots().len(),
        ensures
            views_of(r.branch@) == merkle_branch(
                pad_to(
                    container.spec_field_roots(),
                    next_pow2(container.spec_field_roots().len()),
                ),
                field_index as nat,
            ),
            r.leaf_index == field_index,
    {
        let leaves = container.ssz_field_roots();
        Self::generate_proof(leaves.as_slice(), field_index)
    }

    /// Verify a Merkle proof: fold the leaf up the branch and compare with
    /// the root.
    pub fn verify_proof(root: &[u8; 32], proof: &SszLeafInclusionProof, leaf_value: &[u8; 32]) -> (r:
        bool)
        ensures
            r <==> fold_branch(leaf_value@, views_of(proof.branch@), proof.leaf_index as nat)
                == root@,
    {
        let folded = fold_path(leaf_value, proof.branch.as_slice(), proof.leaf_index);
        eq32(&folded, root)
    }
}

} // verus!
