//! SHA-256 hashing of pairs of 32-byte tree nodes.
//!
//! Every internal node of the trees in this crate is `sha256(left || right)`
//! with no domain-separation prefix.  The digest itself is computed by the
//! `sha2` crate; its value is modelled by the uninterpreted function
//! [`sha256_pair_hash`].

use vstd::prelude::*;
use sha2::Digest;

verus! {

/// The 32-byte digest `sha256(left || right)`, as a function of the two
/// 32-byte inputs alone.
pub uninterp spec fn sha256_pair_hash(left: Seq<u8>, right: Seq<u8>) -> Seq<u8>;

/// The all-zero 32-byte chunk used to pad trees.
pub open spec fn zero_chunk() -> Seq<u8> {
    Seq::new(32, |i: int| 0u8)
}

/// Relies on `sha2::Sha256`: the digest is 32 bytes and depends on the
/// hashed bytes alone.
#[verifier::external_body]
pub fn sha256_pair(left: &[u8; 32], right: &[u8; 32]) -> (r: [u8; 32])
    ensures
        r@ == sha256_pair_hash(left@, right@),
{
    let mut hasher = sha2::Sha256::new();
    hasher.update(left);
    hasher.update(right);
    hasher.finalize().into()
}

/// The all-zero 32-byte chunk as an executable value.
pub fn zero_chunk_bytes() -> (r: [u8; 32])
    ensures
        r@ == zero_chunk(),
{
    let r = [0u8; 32];
    proof {
        assert(r@ =~= zero_chunk());
    }
    r
}

/// Byte-wise equality of two 32-byte values.
pub fn eq32(a: &[u8; 32], b: &[u8; 32]) -> (r: bool)
    ensures
        r <==> a@ == b@,
{
    let mut i: usize = 0;
    while i < 32
        invariant
            i <= 32,
            forall|j: int| 0 <= j < i ==> a@[j] == b@[j],
        decreases 32 - i,
    {
        if a[i] != b[i] {
            return false;
        }
        i += 1;
    }
    proof {
        assert(a@ =~= b@);
    }
    true
}

} // verus!
