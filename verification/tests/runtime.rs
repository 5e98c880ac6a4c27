//! Runtime tests: verifying a step input against a toy inner state machine.

use moho::id::{InnerStateCommitment, MohoStateCommitment, StateReference};
use moho::predicate::PredicateKey;
use moho::runtime::{compute_transition, verify_input, MohoProgram, RuntimeError, RuntimeInput};
use moho::state::{ExportState, MohoState};

/// A step input for the toy machine: the parent reference, this step's own
/// reference, and the amount to add.
struct CounterInput {
    prev: StateReference,
    this: StateReference,
    delta: u64,
}

/// A toy inner state machine: the state is a counter, a step adds a delta.
struct Counter;

fn counter_commitment(state: &u64) -> InnerStateCommitment {
    let mut bytes = [0u8; 32];
    bytes[..8].copy_from_slice(&state.to_le_bytes());
    InnerStateCommitment::new(bytes)
}

impl MohoProgram for Counter {
    type State = u64;

    type StepInput = CounterInput;

    type StepOutput = u64;

    fn compute_input_reference(input: &CounterInput) -> StateReference {
        input.this
    }

    fn extract_prev_reference(input: &CounterInput) -> StateReference {
        input.prev
    }

    fn compute_state_commitment(state: &u64) -> InnerStateCommitment {
        counter_commitment(state)
    }

    fn process_transition(pre_state: &u64, inp: &CounterInput) -> u64 {
        pre_state + inp.delta
    }

    fn extract_next_predicate(_output: &u64) -> Option<PredicateKey> {
        None
    }

    fn extract_post_state(output: &u64) -> &u64 {
        output
    }

    fn compute_export_state(export_state: ExportState, _output: &u64) -> ExportState {
        export_state
    }
}

fn pre_state(counter: u64) -> MohoState {
    MohoState::new(counter_commitment(&counter), PredicateKey::always_accept(), ExportState::new(
        vec![],
    ))
}

fn runtime_input(pre_counter: u64, post_commitment: MohoStateCommitment) -> RuntimeInput {
    RuntimeInput::new(
        StateReference::new([1; 32]),
        pre_state(pre_counter),
        vec![],
        vec![],
        post_commitment,
    )
}

#[test]
fn verify_input_accepts_valid_step() {
    let step = CounterInput {
        prev: StateReference::new([1; 32]),
        this: StateReference::new([2; 32]),
        delta: 3,
    };
    // The post state the machine will compute: counter 5 + 3, predicate and
    // exports carried over.
    let expected_post = pre_state(8);
    let post_commitment = expected_post.compute_commitment();

    let input = runtime_input(5, post_commitment);
    let att = verify_input::<Counter>(input, &5u64, &step).unwrap();

    assert_eq!(att.genesis().reference(), &StateReference::new([1; 32]));
    assert_eq!(att.genesis().commitment(), &pre_state(5).compute_commitment());
    assert_eq!(att.proven().reference(), &StateReference::new([2; 32]));
    assert_eq!(att.proven().commitment(), &post_commitment);
}

#[test]
fn verify_input_rejects_wrong_inner_state() {
    let step = CounterInput {
        prev: StateReference::new([1; 32]),
        this: StateReference::new([2; 32]),
        delta: 3,
    };
    let post_commitment = pre_state(8).compute_commitment();
    let input = runtime_input(5, post_commitment);
    // The decoded inner state does not match the outer state's commitment.
    let result = verify_input::<Counter>(input, &6u64, &step);
    assert_eq!(result.unwrap_err(), RuntimeError::InnerStateMismatch);
}

#[test]
fn verify_input_rejects_wrong_parent() {
    let step = CounterInput {
        prev: StateReference::new([9; 32]),
        this: StateReference::new([2; 32]),
        delta: 3,
    };
    let post_commitment = pre_state(8).compute_commitment();
    let input = runtime_input(5, post_commitment);
    let result = verify_input::<Counter>(input, &5u64, &step);
    assert_eq!(result.unwrap_err(), RuntimeError::InputParentMismatch);
}

#[test]
fn verify_input_rejects_wrong_post_commitment() {
    let step = CounterInput {
        prev: StateReference::new([1; 32]),
        this: StateReference::new([2; 32]),
        delta: 3,
    };
    // Claim the commitment of a different post state.
    let wrong_commitment = pre_state(9).compute_commitment();
    let input = runtime_input(5, wrong_commitment);
    let result = verify_input::<Counter>(input, &5u64, &step);
    assert_eq!(result.unwrap_err(), RuntimeError::PostCommitmentMismatch);
}

#[test]
fn compute_transition_wraps_machine_outputs() {
    let step = CounterInput {
        prev: StateReference::new([1; 32]),
        this: StateReference::new([2; 32]),
        delta: 7,
    };
    let post = compute_transition::<Counter>(
        &StateReference::new([1; 32]),
        pre_state(10),
        &10u64,
        &step,
    )
    .unwrap();
    // The new outer state commits to the new counter and keeps the previous
    // predicate.
    assert_eq!(post.inner_state().inner(), counter_commitment(&17).inner());
    assert_eq!(post.next_predicate().kind(), PredicateKey::always_accept().kind());
}

#[test]
fn runtime_input_accessors() {
    let state = pre_state(5);
    let commitment = pre_state(8).compute_commitment();
    let input = RuntimeInput::new(
        StateReference::new([1; 32]),
        state,
        vec![1, 2],
        vec![3, 4],
        commitment,
    );
    assert_eq!(input.pre_state_ref(), &StateReference::new([1; 32]));
    assert_eq!(input.moho_pre_state().inner_state().inner(), counter_commitment(&5).inner());
    assert_eq!(input.inner_pre_state(), &vec![1, 2]);
    assert_eq!(input.input_payload(), &vec![3, 4]);
    assert_eq!(input.post_state_commitment(), &commitment);
    let pre = input.into_pre_state();
    assert_eq!(pre.inner_state().inner(), counter_commitment(&5).inner());
}
