//! Predicate keys and the predicate verifier capability.
//!
//! A predicate is a tagged value `{ kind, condition }` naming a verifier.  A
//! witness justifies a claim under a predicate iff the predicate's `verify`
//! accepts the pair.  The set of kinds is closed: a kind that always accepts
//! and one that never accepts (for testing), and BIP-340 Schnorr, whose
//! condition is the 32-byte x-only public key.

use vstd::prelude::*;
use k256::schnorr::signature::Verifier;
use crate::constants::{MAX_CONDITION_SIZE, MAX_PREDICATE_SIZE};

verus! {

/// The kind tag of the predicate that accepts every claim/witness pair.
pub const ALWAYS_ACCEPT_KIND: u8 = 1;

/// The kind tag of the predicate that rejects every claim/witness pair.
pub const NEVER_ACCEPT_KIND: u8 = 2;

/// The kind tag of the BIP-340 Schnorr predicate.
pub const BIP340_SCHNORR_KIND: u8 = 3;

/// Whether BIP-340 Schnorr verification accepts `signature` on `message`
/// under the x-only public key `public_key`; a function of the three byte
/// strings alone.
pub uninterp spec fn schnorr_accepts(
    public_key: Seq<u8>,
    message: Seq<u8>,
    signature: Seq<u8>,
) -> bool;

/// The mathematical value of a predicate key.
pub ghost struct PredicateKeyView {
    pub kind: u8,
    pub condition: Seq<u8>,
}

impl PredicateKeyView {
    /// The condition fits the protocol bound.
    pub open spec fn wf(self) -> bool {
        self.condition.len() <= MAX_CONDITION_SIZE
    }

    /// The canonical encoding of the key: the kind tag followed by the
    /// condition bytes.
    pub open spec fn to_bytes(self) -> Seq<u8> {
        seq![self.kind] + self.condition
    }

    /// Whether this predicate accepts `witness` as justification of `claim`.
    /// BIP-340 defines verification only for 32-byte x-only public keys and
    /// 64-byte encoded signatures; a Schnorr key or witness of any other
    /// length justifies nothing.
    pub open spec fn accepts(self, claim: Seq<u8>, witness: Seq<u8>) -> bool {
        if self.kind == ALWAYS_ACCEPT_KIND {
            true
        } else if self.kind == BIP340_SCHNORR_KIND {
            self.condition.len() == 32 && witness.len() == 64 && schnorr_accepts(
                self.condition,
                claim,
                witness,
            )
        } else {
            false
        }
    }
}

/// A predicate key: the serializable handle naming and parameterizing a
/// verifier.
#[derive(Debug, PartialEq, Eq)]
pub struct PredicateKey {
    kind: u8,
    condition: Vec<u8>,
}

impl View for PredicateKey {
    type V = PredicateKeyView;

    closed spec fn view(&self) -> PredicateKeyView {
        PredicateKeyView { kind: self.kind, condition: self.condition@ }
    }
}

impl Clone for PredicateKey {
    /// A clone carries the same kind and condition.
    fn clone(&self) -> (r: Self)
        ensures
            r@ == self@,
    {
        proof {
            use_type_invariant(self);
        }
        PredicateKey { kind: self.kind, condition: clone_bytes(&self.condition) }
    }
}

impl PredicateKey {
    #[verifier::type_invariant]
    spec fn type_inv(self) -> bool {
        self@.wf()
    }

    /// Build a predicate key.  Fails iff the condition is longer than the
    /// protocol bound.
    pub fn new(kind: u8, condition: Vec<u8>) -> (r: Option<PredicateKey>)
        ensures
            match r {
                Some(p) => p@ == (PredicateKeyView { kind, condition: condition@ }),
                None => condition@.len() > MAX_CONDITION_SIZE,
            },
    {
        if condition.len() <= MAX_CONDITION_SIZE {
            Some(PredicateKey { kind, condition })
        } else {
            None
        }
    }

    /// The predicate that accepts every claim/witness pair.
    pub fn always_accept() -> (r: PredicateKey)
        ensures
            r@ == (PredicateKeyView { kind: ALWAYS_ACCEPT_KIND, condition: Seq::<u8>::empty() }),
    {
        let r = PredicateKey { kind: ALWAYS_ACCEPT_KIND, condition: Vec::new() };
        proof {
            assert(r@.condition =~= Seq::<u8>::empty());
        }
        r
    }

    /// The predicate that rejects every claim/witness pair.
    pub fn never_accept() -> (r: PredicateKey)
        ensures
            r@ == (PredicateKeyView { kind: NEVER_ACCEPT_KIND, condition: Seq::<u8>::empty() }),
    {
        let r = PredicateKey { kind: NEVER_ACCEPT_KIND, condition: Vec::new() };
        proof {
            assert(r@.condition =~= Seq::<u8>::empty());
        }
        r
    }

    /// The kind tag.
    pub fn kind(&self) -> (r: u8)
        ensures
            r == self@.kind,
    {
        self.kind
    }

    /// The condition bytes.
    pub fn condition(&self) -> (r: &Vec<u8>)
        ensures
            r@ == self@.condition,
    {
        &self.condition
    }

    /// The canonical encoding: kind tag followed by the condition bytes.
    pub fn to_bytes(&self) -> (r: Vec<u8>)
        ensures
            r@ == self@.to_bytes(),
            r@.len() <= MAX_PREDICATE_SIZE,
    {
        proof {
            use_type_invariant(self);
        }
        let mut r: Vec<u8> = Vec::new();
        r.push(self.kind);
        let mut i: usize = 0;
        while i < self.condition.len()
            invariant
                i <= self.condition@.len(),
                r@ =~= seq![self@.kind] + self.condition@.take(i as int),
            decreases self.condition@.len() - i,
        {
            r.push(self.condition[i]);
            i += 1;
        }
        proof {
            assert(r@ =~= self@.to_bytes());
        }
        r
    }

    /// Parse a canonical encoding.  Succeeds iff the bytes are non-empty and
    /// fit the protocol bound.
    pub fn from_bytes(bytes: &[u8]) -> (r: Option<PredicateKey>)
        ensures
            match r {
                Some(p) => 1 <= bytes@.len() <= MAX_PREDICATE_SIZE && p@ == (PredicateKeyView {
                    kind: bytes@[0],
                    condition: bytes@.skip(1),
                }),
                None => bytes@.len() == 0 || bytes@.len() > MAX_PREDICATE_SIZE,
            },
    {
        if bytes.len() == 0 || bytes.len() > MAX_PREDICATE_SIZE {
            return None;
        }
        let kind = *vstd::slice::slice_index_get(bytes, 0);
        let mut condition: Vec<u8> = Vec::new();
        let mut i: usize = 1;
        while i < bytes.len()
            invariant
                1 <= i <= bytes@.len(),
                condition@ =~= bytes@.subrange(1, i as int),
            decreases bytes@.len() - i,
        {
            condition.push(*vstd::slice::slice_index_get(bytes, i));
            i += 1;
        }
        proof {
            assert(condition@ =~= bytes@.skip(1));
        }
        Some(PredicateKey { kind, condition })
    }

    /// Decide whether `witness` justifies `claim` under this predicate.
    pub fn verify_claim_witness(&self, claim: &[u8], witness: &[u8]) -> (r: bool)
        ensures
            r == self@.accepts(claim@, witness@),
    {
        if self.kind == ALWAYS_ACCEPT_KIND {
            true
        } else if self.kind == BIP340_SCHNORR_KIND {
            if self.condition.len() == 32 && witness.len() == 64 {
                schnorr_verify(self.condition.as_slice(), claim, witness)
            } else {
                false
            }
        } else {
            false
        }
    }
}

/// Copy a byte vector.
pub(crate) fn clone_bytes(v: &Vec<u8>) -> (r: Vec<u8>)
    ensures
        r@ == v@,
{
    let mut r: Vec<u8> = Vec::new();
    let mut i: usize = 0;
    while i < v.len()
        invariant
            i <= v@.len(),
            r@ =~= v@.take(i as int),
        decreases v@.len() - i,
    {
        r.push(v[i]);
        i += 1;
    }
    proof {
        assert(r@ =~= v@);
    }
    r
}

/// Relies on `k256::schnorr`: `VerifyingKey::from_bytes`,
/// `Signature::try_from` and `Verifier::verify` (BIP-340 over secp256k1).
/// Acceptance is a function of the key, message and signature bytes alone;
/// a key that is no x-coordinate or a signature that is no point/scalar pair
/// is rejected.  Both parsers demand their exact widths before any checking:
/// `VerifyingKey::from_bytes` reads the key as a 32-byte field element and
/// `Signature::try_from` splits its input at byte 32, so keys of any other
/// length and shorter signatures must be kept away from them.
#[verifier::external_body]
fn schnorr_verify(public_key: &[u8], message: &[u8], signature: &[u8]) -> (r: bool)
    requires
        public_key@.len() == 32,
        signature@.len() == 64,
    ensures
        r == schnorr_accepts(public_key@, message@, signature@),
{
    let vk = match k256::schnorr::VerifyingKey::from_bytes(public_key) {
        Ok(vk) => vk,
        Err(_) => {
            return false;
        },
    };
    let sig = match k256::schnorr::Signature::try_from(signature) {
        Ok(sig) => sig,
        Err(_) => {
            return false;
        },
    };
    vk.verify(message, &sig).is_ok()
}

} // verus!
