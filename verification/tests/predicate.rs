//! Predicate verifier tests: the closed set of kinds and the condition
//! bound.

use k256::schnorr::signature::Signer;
use k256::schnorr::SigningKey;
use moho::constants::{MAX_CONDITION_SIZE, MAX_PREDICATE_SIZE};
use moho::predicate::{PredicateKey, ALWAYS_ACCEPT_KIND, BIP340_SCHNORR_KIND, NEVER_ACCEPT_KIND};

#[test]
fn always_accept_accepts_everything() {
    let p = PredicateKey::always_accept();
    assert_eq!(p.kind(), ALWAYS_ACCEPT_KIND);
    assert!(p.verify_claim_witness(b"any claim", b"any witness"));
    assert!(p.verify_claim_witness(&[], &[]));
}

#[test]
fn never_accept_rejects_everything() {
    let p = PredicateKey::never_accept();
    assert_eq!(p.kind(), NEVER_ACCEPT_KIND);
    assert!(!p.verify_claim_witness(b"any claim", b"any witness"));
    assert!(!p.verify_claim_witness(&[], &[]));
}

#[test]
fn unknown_kind_rejects() {
    let p = PredicateKey::new(0xEE, vec![1, 2, 3]).unwrap();
    assert!(!p.verify_claim_witness(b"claim", b"witness"));
}

#[test]
fn schnorr_verifies_valid_signature_only() {
    let sk = SigningKey::from_bytes(&[0x42; 32]).unwrap();
    let p = PredicateKey::new(BIP340_SCHNORR_KIND, sk.verifying_key().to_bytes().to_vec())
        .unwrap();
    let claim = b"the claim being justified";
    let sig = sk.sign(claim).to_bytes().to_vec();
    assert!(p.verify_claim_witness(claim, &sig));

    let mut bad = sig.clone();
    bad[0] ^= 0x01;
    assert!(!p.verify_claim_witness(claim, &bad));
    assert!(!p.verify_claim_witness(b"another claim", &sig));
    assert!(!p.verify_claim_witness(claim, b"not a signature"));
}

#[test]
fn condition_bound_enforced_on_construction() {
    assert!(PredicateKey::new(1, vec![0; MAX_CONDITION_SIZE]).is_some());
    assert!(PredicateKey::new(1, vec![0; MAX_CONDITION_SIZE + 1]).is_none());
}

#[test]
fn predicate_bytes_roundtrip() {
    let p = PredicateKey::new(BIP340_SCHNORR_KIND, vec![7; 32]).unwrap();
    let bytes = p.to_bytes();
    assert_eq!(bytes.len(), 33);
    assert_eq!(bytes[0], BIP340_SCHNORR_KIND);
    let q = PredicateKey::from_bytes(&bytes).unwrap();
    assert_eq!(q, p);

    assert!(PredicateKey::from_bytes(&[]).is_none());
    assert!(PredicateKey::from_bytes(&vec![1u8; MAX_PREDICATE_SIZE + 1]).is_none());
}

#[test]
fn schnorr_rejects_wrong_length_key() {
    // A Schnorr condition that is no 32-byte x-only key justifies nothing,
    // whatever the witness.
    let sk = SigningKey::from_bytes(&[0x42; 32]).unwrap();
    let claim = b"the claim being justified";
    let sig = sk.sign(claim).to_bytes().to_vec();

    let short_key = PredicateKey::new(BIP340_SCHNORR_KIND, vec![7; 16]).unwrap();
    assert!(!short_key.verify_claim_witness(claim, &sig));

    let long_key = PredicateKey::new(BIP340_SCHNORR_KIND, vec![7; 33]).unwrap();
    assert!(!long_key.verify_claim_witness(claim, &sig));

    let empty_key = PredicateKey::new(BIP340_SCHNORR_KIND, vec![]).unwrap();
    assert!(!empty_key.verify_claim_witness(claim, &sig));
}
