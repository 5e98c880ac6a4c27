//! Merkle helpers over 32-byte chunks with zero-chunk padding.
//!
//! Leaves are padded with the all-zero chunk to the next power of two and
//! internal nodes are `sha256(left || right)`.  This is the merkleization
//! used for the outer state commitment and for field-inclusion proofs.

use vstd::prelude::*;
use vstd::slice::slice_index_get;
use crate::hash::{eq32, sha256_pair, sha256_pair_hash, zero_chunk, zero_chunk_bytes};

verus! {

/// The sequence of views of a sequence of 32-byte values.
pub open spec fn views_of(s: Seq<[u8; 32]>) -> Seq<Seq<u8>> {
    Seq::new(s.len(), |i: int| s[i]@)
}

/// Whether `n` is a power of two.
pub open spec fn is_pow2(n: nat) -> bool
    decreases n,
{
    if n == 0 {
        false
    } else if n == 1 {
        true
    } else {
        n % 2 == 0 && is_pow2(n / 2)
    }
}

/// The least power of two that is at least `n` (and at least 1).
pub open spec fn next_pow2(n: nat) -> nat
    decreases n,
{
    if n <= 1 {
        1
    } else {
        2 * next_pow2((n + 1) / 2)
    }
}

pub proof fn lemma_next_pow2(n: nat)
    ensures
        is_pow2(next_pow2(n)),
        next_pow2(n) >= n,
        next_pow2(n) >= 1,
        n >= 1 ==> next_pow2(n) < 2 * n,
    decreases n,
{
    if n > 1 {
        lemma_next_pow2((n + 1) / 2);
    }
}

/// `level` extended with zero chunks up to length `n`.
pub open spec fn pad_to(level: Seq<Seq<u8>>, n: nat) -> Seq<Seq<u8>>
    recommends
        level.len() <= n,
{
    level + Seq::new((n - level.len()) as nat, |i: int| zero_chunk())
}

/// One level up the tree: adjacent pairs hashed together.
pub open spec fn level_up(level: Seq<Seq<u8>>) -> Seq<Seq<u8>>
    recommends
        level.len() % 2 == 0,
{
    Seq::new(level.len() / 2, |i: int| sha256_pair_hash(level[2 * i], level[2 * i + 1]))
}

/// The root of a tree whose bottom layer is `level` (of power-of-two size).
pub open spec fn root_from_level(level: Seq<Seq<u8>>) -> Seq<u8>
    decreases level.len(),
{
    if level.len() == 0 {
        zero_chunk()
    } else if level.len() == 1 {
        level[0]
    } else {
        root_from_level(level_up(level))
    }
}

/// The Merkle root of `leaves`, padded with zero chunks to the next power of
/// two; the root of no leaves is the zero chunk.
pub open spec fn merkle_root(leaves: Seq<Seq<u8>>) -> Seq<u8> {
    if leaves.len() == 0 {
        zero_chunk()
    } else {
        root_from_level(pad_to(leaves, next_pow2(leaves.len())))
    }
}

/// The bottom-up sibling branch for the leaf at `idx` of `level`.
pub open spec fn merkle_branch(level: Seq<Seq<u8>>, idx: nat) -> Seq<Seq<u8>>
    decreases level.len(),
{
    if level.len() <= 1 {
        Seq::empty()
    } else {
        let sib: nat = if idx % 2 == 0 { idx + 1 } else { (idx - 1) as nat };
        let sh = if sib < level.len() { level[sib as int] } else { zero_chunk() };
        seq![sh] + merkle_branch(level_up(level), idx / 2)
    }
}

/// Folding a leaf up a sibling branch: at each step the current node is
/// hashed with its sibling, on the side given by the parity of the index.
pub open spec fn fold_branch(leaf: Seq<u8>, branch: Seq<Seq<u8>>, idx: nat) -> Seq<u8>
    decreases branch.len(),
{
    if branch.len() == 0 {
        leaf
    } else {
        let h = if idx % 2 == 0 {
            sha256_pair_hash(leaf, branch[0])
        } else {
            sha256_pair_hash(branch[0], leaf)
        };
        fold_branch(h, branch.drop_first(), idx / 2)
    }
}

/// Folding the generated branch from any in-range leaf reconstructs the root.
pub proof fn lemma_fold_generated_branch(level: Seq<Seq<u8>>, idx: nat)
    requires
        is_pow2(level.len()),
        idx < level.len(),
    ensures
        fold_branch(level[idx as int], merkle_branch(level, idx), idx) == root_from_level(level),
    decreases level.len(),
{
    if level.len() == 1 {
    } else {
        let n = level.len();
        assert(n % 2 == 0 && is_pow2(n / 2));
        let up = level_up(level);
        assert(up.len() == n / 2);
        // the sibling is always in range: idx and n - 1 have different parity
        let sib: nat = if idx % 2 == 0 { idx + 1 } else { (idx - 1) as nat };
        assert(idx % 2 == 0 ==> idx != n - 1);
        assert(sib < n);
        let branch = merkle_branch(level, idx);
        assert(branch == seq![level[sib as int]] + merkle_branch(up, idx / 2));
        assert(branch[0] == level[sib as int]);
        assert(branch.drop_first() =~= merkle_branch(up, idx / 2));
        let h = if idx % 2 == 0 {
            sha256_pair_hash(level[idx as int], branch[0])
        } else {
            sha256_pair_hash(branch[0], level[idx as int])
        };
        assert(2 * (idx / 2) == idx || 2 * (idx / 2) + 1 == idx);
        assert(h == up[(idx / 2) as int]);
        assert(idx / 2 < up.len());
        lemma_fold_generated_branch(up, idx / 2);
        assert(fold_branch(level[idx as int], branch, idx) == fold_branch(h, branch.drop_first(), idx / 2));
    }
}

/// Folding the branch generated for leaf `idx` of `leaves` reconstructs the
/// Merkle root of `leaves`.
pub proof fn lemma_generated_branch_verifies(leaves: Seq<Seq<u8>>, idx: nat)
    requires
        idx < leaves.len(),
    ensures
        fold_branch(
            leaves[idx as int],
            merkle_branch(pad_to(leaves, next_pow2(leaves.len())), idx),
            idx,
        ) == merkle_root(leaves),
{
    lemma_next_pow2(leaves.len());
    let padded = pad_to(leaves, next_pow2(leaves.len()));
    assert(padded.len() == next_pow2(leaves.len()));
    assert(padded[idx as int] == leaves[idx as int]);
    lemma_fold_generated_branch(padded, idx);
}

/// Merkle proof for proving membership of a field in a state structure.
pub struct MerkleProof {
    /// The merkle path (sibling hashes) needed to reconstruct the root.
    pub path: Vec<[u8; 32]>,
    /// The index of the leaf in the tree.
    pub leaf_index: u8,
}

/// Merkle tree builder and utilities.
pub struct MerkleTree;

impl MerkleTree {
    /// Compute the Merkle root from a list of leaf hashes.
    pub fn compute_root(leaves: &[[u8; 32]]) -> (r: [u8; 32])
        requires
            leaves@.len() <= 0x1000_0000,
        ensures
            r@ == merkle_root(views_of(leaves@)),
    {
        if leaves.len() == 0 {
            return zero_chunk_bytes();
        }

        let mut current: Vec<[u8; 32]> = Vec::new();
        let mut i: usize = 0;
        while i < leaves.len()
            invariant
                i <= leaves@.len(),
                current@ =~= leaves@.take(i as int),
            decreases leaves@.len() - i,
        {
            let leaf = *slice_index_get(leaves, i);
            current.push(leaf);
            i += 1;
        }
        assert(current@ =~= leaves@);

        // Pad to the next power of two with zero chunks.
        let p = next_pow2_exec(current.len());
        proof {
            lemma_next_pow2(leaves@.len());
        }
        let zero = zero_chunk_bytes();
        while current.len() < p
            invariant
                leaves@.len() >= 1,
                leaves@.len() <= current@.len() <= p,
                p == next_pow2(leaves@.len()),
                zero@ == zero_chunk(),
                views_of(current@) =~= pad_to(views_of(leaves@), current@.len()),
            decreases p - current@.len(),
        {
            let ghost prev = current@;
            current.push(zero);
            proof {
                assert forall|k: int| 0 <= k < current@.len() implies views_of(current@)[k]
                    == pad_to(views_of(leaves@), current@.len())[k] by {
                    if k < prev.len() {
                        assert(views_of(prev)[k] == pad_to(views_of(leaves@), prev.len())[k]);
                    }
                }
                assert(views_of(current@) =~= pad_to(views_of(leaves@), current@.len()));
            }
        }
        proof {
            assert(views_of(current@) =~= pad_to(views_of(leaves@), next_pow2(leaves@.len())));
            lemma_next_pow2(leaves@.len());
        }

        // Hash pairs level by level.
        while current.len() > 1
            invariant
                1 <= current@.len(),
                is_pow2(current@.len()),
                root_from_level(views_of(current@)) == merkle_root(views_of(leaves@)),
            decreases current@.len(),
        {
            let half = current.len() / 2;
            let mut next: Vec<[u8; 32]> = Vec::new();
            let mut j: usize = 0;
            while j < half
                invariant
                    j <= half,
                    half == current@.len() / 2,
                    2 * half <= usize::MAX,
                    current@.len() % 2 == 0,
                    next@.len() == j,
                    forall|k: int| 0 <= k < j ==> next@[k]@ == level_up(views_of(current@))[k],
                decreases half - j,
            {
                let h = sha256_pair(&current[2 * j], &current[2 * j + 1]);
                next.push(h);
                j += 1;
            }
            proof {
                assert(views_of(next@) =~= level_up(views_of(current@)));
            }
            current = next;
        }
        current[0]
    }

    /// Generate a Merkle proof for a specific leaf index.
    pub fn generate_proof(leaves: &[[u8; 32]], leaf_index: usize) -> (r: MerkleProof)
        requires
            leaf_index < leaves@.len(),
            leaves@.len() <= 256,
        ensures
            views_of(r.path@) == merkle_branch(
                pad_to(views_of(leaves@), next_pow2(leaves@.len())),
                leaf_index as nat,
            ),
            r.leaf_index == leaf_index,
    {
        let path = Self::generate_merkle_path(leaves, leaf_index);

        MerkleProof { path, leaf_index: leaf_index as u8 }
    }

    /// Verify a Merkle proof.
    pub fn verify_proof(root: &[u8; 32], proof: &MerkleProof, leaf_value: &[u8; 32]) -> (r: bool)
        ensures
            r <==> fold_branch(leaf_value@, views_of(proof.path@), proof.leaf_index as nat)
                == root@,
    {
        let folded = fold_path(leaf_value, proof.path.as_slice(), proof.leaf_index);
        eq32(&folded, root)
    }

    /// Build the bottom-up sibling branch for a given leaf index.
    pub(crate) fn generate_merkle_path(leaves: &[[u8; 32]], leaf_index: usize) -> (r: Vec<[u8; 32]>)
        requires
            leaf_index < leaves@.len(),
            leaves@.len() <= 0x1000_0000,
        ensures
            views_of(r@) == merkle_branch(
                pad_to(views_of(leaves@), next_pow2(leaves@.len())),
                leaf_index as nat,
            ),
    {
        let mut path: Vec<[u8; 32]> = Vec::new();
        let mut current: Vec<[u8; 32]> = Vec::new();
        let mut i: usize = 0;
        while i < leaves.len()
            invariant
                i <= leaves@.len(),
                current@ =~= leaves@.take(i as int),
            decreases leaves@.len() - i,
        {
            let leaf = *slice_index_get(leaves, i);
            current.push(leaf);
            i += 1;
        }
        assert(current@ =~= leaves@);

        let p = next_pow2_exec(current.len());
        proof {
            lemma_next_pow2(leaves@.len());
        }
        let zero = zero_chunk_bytes();
        while current.len() < p
            invariant
                leaves@.len() >= 1,
                leaves@.len() <= current@.len() <= p,
                p == next_pow2(leaves@.len()),
                zero@ == zero_chunk(),
                views_of(current@) =~= pad_to(views_of(leaves@), current@.len()),
            decreases p - current@.len(),
        {
            let ghost prev = current@;
            current.push(zero);
            proof {
                assert forall|k: int| 0 <= k < current@.len() implies views_of(current@)[k]
                    == pad_to(views_of(leaves@), current@.len())[k] by {
                    if k < prev.len() {
                        assert(views_of(prev)[k] == pad_to(views_of(leaves@), prev.len())[k]);
                    }
                }
                assert(views_of(current@) =~= pad_to(views_of(leaves@), current@.len()));
            }
        }
        let ghost padded = pad_to(views_of(leaves@), next_pow2(leaves@.len()));
        proof {
            assert(views_of(current@) =~= padded);
            lemma_next_pow2(leaves@.len());
        }

        let mut current_index: usize = leaf_index;
        while current.len() > 1
            invariant
                1 <= current@.len(),
                is_pow2(current@.len()),
                merkle_branch(padded, leaf_index as nat) == views_of(path@) + merkle_branch(
                    views_of(current@),
                    current_index as nat,
                ),
            decreases current@.len(),
        {
            let ghost prev_path = path@;
            let ghost prev_level = views_of(current@);
            let ghost prev_idx = current_index as nat;

            let sibling_index = if current_index % 2 == 0 {
                current_index + 1
            } else {
                current_index - 1
            };

            if sibling_index < current.len() {
                path.push(current[sibling_index]);
            } else {
                path.push(zero_chunk_bytes());
            }
            let ghost sib: nat = if prev_idx % 2 == 0 { prev_idx + 1 } else { (prev_idx - 1) as nat };
            let ghost sh = if sib < prev_level.len() { prev_level[sib as int] } else { zero_chunk() };
            proof {
                assert(path@.last()@ == sh);
                assert(views_of(path@) =~= views_of(prev_path) + seq![sh]);
            }

            let half = current.len() / 2;
            let mut next: Vec<[u8; 32]> = Vec::new();
            let mut j: usize = 0;
            while j < half
                invariant
                    j <= half,
                    half == current@.len() / 2,
                    2 * half <= usize::MAX,
                    current@.len() % 2 == 0,
                    next@.len() == j,
                    forall|k: int| 0 <= k < j ==> next@[k]@ == level_up(views_of(current@))[k],
                decreases half - j,
            {
                let h = sha256_pair(&current[2 * j], &current[2 * j + 1]);
                next.push(h);
                j += 1;
            }
            proof {
                assert(views_of(next@) =~= level_up(prev_level));
                assert(merkle_branch(prev_level, prev_idx) == seq![sh] + merkle_branch(
                    level_up(prev_level),
                    prev_idx / 2,
                ));
                assert((views_of(prev_path) + seq![sh]) + merkle_branch(level_up(prev_level), prev_idx / 2)
                    =~= views_of(prev_path) + (seq![sh] + merkle_branch(level_up(prev_level), prev_idx / 2)));
            }
            current = next;
            current_index = current_index / 2;
        }
        proof {
            assert(merkle_branch(views_of(current@), current_index as nat) =~= Seq::<Seq<u8>>::empty());
            assert(views_of(path@) + Seq::<Seq<u8>>::empty() =~= views_of(path@));
        }
        path
    }
}

/// Fold a leaf up a sibling path, bottom-up.
pub(crate) fn fold_path(leaf_value: &[u8; 32], path: &[[u8; 32]], leaf_index: u8) -> (r: [u8; 32])
    ensures
        r@ == fold_branch(leaf_value@, views_of(path@), leaf_index as nat),
{
    let mut current_hash: [u8; 32] = *leaf_value;
    let mut current_index: usize = leaf_index as usize;
    let ghost full = views_of(path@);

    proof {
        assert(full.skip(0) =~= full);
    }
    let mut i: usize = 0;
    while i < path.len()
        invariant
            i <= path@.len(),
            full == views_of(path@),
            fold_branch(leaf_value@, full, leaf_index as nat) == fold_branch(
                current_hash@,
                full.skip(i as int),
                current_index as nat,
            ),
        decreases path@.len() - i,
    {
        let sibling = slice_index_get(path, i);
        proof {
            assert(full.skip(i as int)[0] == sibling@);
            assert(full.skip(i as int).drop_first() =~= full.skip(i + 1));
        }
        if current_index % 2 == 0 {
            current_hash = sha256_pair(&current_hash, sibling);
        } else {
            current_hash = sha256_pair(sibling, &current_hash);
        }
        current_index = current_index / 2;
        i += 1;
    }
    proof {
        assert(full.skip(i as int) =~= Seq::<Seq<u8>>::empty());
    }
    current_hash
}

/// The least power of two at least a power of two is itself.
pub proof fn lemma_next_pow2_of_pow2(n: nat)
    requires
        is_pow2(n),
    ensures
        next_pow2(n) == n,
    decreases n,
{
    if n > 1 {
        lemma_next_pow2_of_pow2(n / 2);
        assert((n + 1) / 2 == n / 2);
    }
}

/// Padding a level to its own length leaves its root unchanged.
pub proof fn lemma_root_of_exact_pad(level: Seq<Seq<u8>>)
    ensures
        root_from_level(pad_to(level, level.len())) == root_from_level(level),
{
    assert(pad_to(level, level.len()) =~= level);
}

/// The powers of two used as chunk limits in this crate.
pub proof fn lemma_is_pow2_constants()
    ensures
        is_pow2(1),
        is_pow2(2),
        is_pow2(4),
        is_pow2(8),
        is_pow2(16),
        is_pow2(32),
        is_pow2(64),
        is_pow2(128),
        is_pow2(256),
        is_pow2(512),
        is_pow2(1024),
        is_pow2(2048),
        is_pow2(4096),
{
    assert(is_pow2(1));
    assert(is_pow2(2));
    assert(is_pow2(4));
    assert(is_pow2(8));
    assert(is_pow2(16));
    assert(is_pow2(32));
    assert(is_pow2(64));
    assert(is_pow2(128));
    assert(is_pow2(256));
    assert(is_pow2(512));
    assert(is_pow2(1024));
    assert(is_pow2(2048));
    assert(is_pow2(4096));
}

/// The root of `leaves` padded with zero chunks to `limit`, a power of two.
pub(crate) fn compute_padded_root(leaves: Vec<[u8; 32]>, limit: usize) -> (r: [u8; 32])
    requires
        is_pow2(limit as nat),
        leaves@.len() <= limit,
        limit <= 0x1000_0000,
    ensures
        r@ == root_from_level(pad_to(views_of(leaves@), limit as nat)),
{
    let ghost orig = views_of(leaves@);
    let mut padded = leaves;
    let zero = zero_chunk_bytes();
    proof {
        assert(views_of(padded@) =~= pad_to(orig, padded@.len()));
    }
    while padded.len() < limit
        invariant
            orig.len() <= padded@.len() <= limit,
            zero@ == zero_chunk(),
            views_of(padded@) =~= pad_to(orig, padded@.len()),
        decreases limit - padded@.len(),
    {
        let ghost prev = padded@;
        padded.push(zero);
        proof {
            assert forall|k: int| 0 <= k < padded@.len() implies views_of(padded@)[k] == pad_to(
                orig,
                padded@.len(),
            )[k] by {
                if k < prev.len() {
                    assert(views_of(prev)[k] == pad_to(orig, prev.len())[k]);
                }
            }
            assert(views_of(padded@) =~= pad_to(orig, padded@.len()));
        }
    }
    let root = MerkleTree::compute_root(padded.as_slice());
    proof {
        lemma_next_pow2_of_pow2(limit as nat);
        lemma_root_of_exact_pad(views_of(padded@));
        assert(padded@.len() == limit);
    }
    root
}

/// The least power of two that is at least `n`.
fn next_pow2_exec(n: usize) -> (p: usize)
    requires
        n <= 0x1000_0000,
    ensures
        p == next_pow2(n as nat),
    decreases n,
{
    if n <= 1 {
        1
    } else {
        proof {
            lemma_next_pow2(((n + 1) / 2) as nat);
        }
        2 * next_pow2_exec((n + 1) / 2)
    }
}

} // verus!
