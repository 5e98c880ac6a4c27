//! Canonical codec tests: round trips, byte-level processing and decode
//! failures.

use moho::codec::{
    decode_recursive_input, decode_recursive_output, encode_recursive_input,
    encode_recursive_output, encode_transition,
};
use moho::errors::MohoError;
use moho::id::{InnerStateCommitment, MohoStateCommitment, StateReference};
use moho::predicate::PredicateKey;
use moho::program::{MohoRecursiveInput, MohoRecursiveOutput};
use moho::relation::StateRefAttestation;
use moho::ssz_merkle_utils::{SszFieldMerkle, SszLeafInclusionProof};
use moho::state::{ExportState, MohoState};
use moho::statements::process_recursive_moho_proof;
use moho::transition::{MohoTransitionWithProof, Transition};

fn att(id: u8, commit: u8) -> StateRefAttestation {
    StateRefAttestation::new(StateReference::new([id; 32]), MohoStateCommitment::new([commit; 32]))
}

fn sample_input(with_prev: bool) -> MohoRecursiveInput {
    let step_t = Transition::new(att(1, 0xA1), att(2, 0xA2));
    let prev_t = Transition::new(att(0, 0xA0), att(1, 0xA1));
    MohoRecursiveInput {
        moho_predicate: PredicateKey::new(3, vec![0x07; 32]).unwrap(),
        prev_recursive_proof: if with_prev {
            Some(MohoTransitionWithProof::new(prev_t, vec![9, 9, 9]))
        } else {
            None
        },
        incremental_step_proof: MohoTransitionWithProof::new(step_t, vec![1, 2, 3, 4]),
        step_predicate: PredicateKey::new(1, vec![]).unwrap(),
        step_predicate_merkle_proof: SszLeafInclusionProof {
            branch: vec![[0x10; 32], [0x20; 32]],
            leaf_index: 1,
        },
    }
}

#[test]
fn input_roundtrip_without_history() {
    let input = sample_input(false);
    let bytes = encode_recursive_input(&input);
    let decoded = decode_recursive_input(&bytes).expect("decodes");
    assert_eq!(decoded, input);
}

#[test]
fn input_roundtrip_with_history() {
    let input = sample_input(true);
    let bytes = encode_recursive_input(&input);
    let decoded = decode_recursive_input(&bytes).expect("decodes");
    assert_eq!(decoded, input);
}

#[test]
fn output_roundtrip() {
    let output = MohoRecursiveOutput {
        transition: Transition::new(att(1, 0xB1), att(9, 0xB9)),
        moho_predicate: PredicateKey::new(3, vec![0x55; 32]).unwrap(),
    };
    let bytes = encode_recursive_output(&output);
    let decoded = decode_recursive_output(&bytes).expect("decodes");
    assert_eq!(decoded, output);
}

#[test]
fn absent_history_is_not_empty_history() {
    // `None` and `Some` with an empty witness encode differently.
    let without = encode_recursive_input(&sample_input(false));
    let mut with_empty = sample_input(false);
    with_empty.prev_recursive_proof = Some(MohoTransitionWithProof::new(
        Transition::new(att(0, 0xA0), att(1, 0xA1)),
        vec![],
    ));
    let with_bytes = encode_recursive_input(&with_empty);
    assert_ne!(without, with_bytes);
    assert_eq!(decode_recursive_input(&without).unwrap().prev_recursive_proof, None);
    assert!(decode_recursive_input(&with_bytes).unwrap().prev_recursive_proof.is_some());
}

#[test]
fn decode_rejects_truncated_and_padded_bytes() {
    let bytes = encode_recursive_input(&sample_input(true));
    assert!(decode_recursive_input(&bytes[..bytes.len() - 1]).is_none());
    let mut padded = bytes.clone();
    padded.push(0);
    assert!(decode_recursive_input(&padded).is_none());
    assert!(decode_recursive_input(&[]).is_none());
}

#[test]
fn decode_rejects_oversized_predicate_condition() {
    // A condition longer than the protocol bound is rejected at decoding.
    let mut bytes: Vec<u8> = Vec::new();
    bytes.push(3);  // kind
    bytes.extend_from_slice(&300u32.to_le_bytes());
    bytes.extend(std::iter::repeat(0u8).take(300));
    // continue with a plausible rest; the decoder must already have failed
    assert!(decode_recursive_input(&bytes).is_none());
}

#[test]
fn process_bytes_end_to_end() {
    // A complete step over canonical bytes, twice: identical output bytes
    // that decode to the expected transition and predicate.
    let step_pred = PredicateKey::always_accept();
    let moho_pred = PredicateKey::new(1, vec![0xEE; 4]).unwrap();
    let from_state = MohoState::new(
        InnerStateCommitment::new([1; 32]),
        step_pred.clone(),
        ExportState::new(vec![]),
    );
    let to_state = MohoState::new(
        InnerStateCommitment::new([2; 32]),
        step_pred.clone(),
        ExportState::new(vec![]),
    );
    let t = Transition::new(
        StateRefAttestation::new(StateReference::new([1; 32]), from_state.compute_commitment()),
        StateRefAttestation::new(StateReference::new([2; 32]), to_state.compute_commitment()),
    );
    let input = MohoRecursiveInput {
        moho_predicate: moho_pred.clone(),
        prev_recursive_proof: None,
        incremental_step_proof: MohoTransitionWithProof::new(t, vec![]),
        step_predicate: step_pred,
        step_predicate_merkle_proof: SszFieldMerkle::generate_proof(&from_state.field_roots(), 1),
    };
    let expected_t = input.incremental_step_proof.transition().clone();

    let bytes = encode_recursive_input(&input);
    let out1 = process_recursive_moho_proof(&bytes).expect("step accepted");
    let out2 = process_recursive_moho_proof(&bytes).expect("step accepted");
    assert_eq!(out1, out2);

    let output = decode_recursive_output(&out1).expect("output decodes");
    assert_eq!(&output.transition, &expected_t);
    assert_eq!(output.moho_predicate, moho_pred);
}

#[test]
fn process_bytes_decode_error() {
    assert!(matches!(process_recursive_moho_proof(&[1, 2, 3]), Err(MohoError::DecodeError)));
    assert!(matches!(process_recursive_moho_proof(&[]), Err(MohoError::DecodeError)));
}

#[test]
fn transition_encoding_exact_value() {
    // The claim encoding is the four 32-byte fields, inline and in order.
    let t = Transition::new(att(1, 2), att(3, 4));
    let bytes = encode_transition(&t);
    let mut expected = Vec::new();
    expected.extend_from_slice(&[1u8; 32]);
    expected.extend_from_slice(&[2u8; 32]);
    expected.extend_from_slice(&[3u8; 32]);
    expected.extend_from_slice(&[4u8; 32]);
    assert_eq!(bytes, expected);
}
