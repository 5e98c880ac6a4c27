//! The runtime around an inner state machine program: verify that a step
//! input extends a previous state and attest to the new state.

use vstd::prelude::*;
use crate::hash::eq32;
use crate::id::{InnerStateCommitment, MohoStateCommitment, StateReference};
use crate::predicate::PredicateKey;
use crate::relation::{MohoAttestation, StateRefAttestation};
use crate::state::{spec_exports_wf, spec_moho_commitment, ExportState, MohoState, MohoStateView};

verus! {

/// The capability interface of the inner state machine whose transitions are
/// being proven.  The engine observes the inner state only through these
/// operations; it never introspects it.
pub trait MohoProgram {
    /// The inner state.
    type State;

    /// Private input to process the next state.
    type StepInput;

    /// Output after processing the step input.
    type StepOutput;

    /// Computes the reference to the input state.
    fn compute_input_reference(input: &Self::StepInput) -> StateReference;

    /// Extracts the state reference to the input's previous input from it.
    fn extract_prev_reference(input: &Self::StepInput) -> StateReference;

    /// Computes the commitment to the inner state.
    fn compute_state_commitment(state: &Self::State) -> InnerStateCommitment;

    /// Computes the state transition from the input.
    fn process_transition(pre_state: &Self::State, inp: &Self::StepInput) -> Self::StepOutput;

    /// Extracts the next predicate key from a step's output: the updated key
    /// if the inner machine installed one, absent if the previous key is
    /// kept.
    fn extract_next_predicate(output: &Self::StepOutput) -> Option<PredicateKey>;

    /// Extracts the inner state after a transition from the step's output.
    fn extract_post_state(output: &Self::StepOutput) -> &Self::State;

    /// Computes the updated exported state from the output.  The result must
    /// be a well-formed export state.
    fn compute_export_state(export_state: ExportState, output: &Self::StepOutput) -> (r:
        ExportState)
        ensures
            spec_exports_wf(r@),
    ;
}

/// Errors that can occur when verifying a runtime input.
#[derive(Debug, Clone, Copy, PartialEq, Eq)]
pub enum RuntimeError {
    /// The given inner pre-state does not match the commitment held in the
    /// outer pre-state.
    InnerStateMismatch,
    /// The step input does not name the pre-state reference as its parent.
    InputParentMismatch,
    /// The computed post-state commitment does not match the one claimed by
    /// the input.
    PostCommitmentMismatch,
}

/// The mathematical value of a runtime input.
pub ghost struct RuntimeInputView {
    pub pre_state_ref: Seq<u8>,
    pub moho_pre_state: MohoStateView,
    pub inner_pre_state: Seq<u8>,
    pub input_payload: Seq<u8>,
    pub post_state_commitment: Seq<u8>,
}

/// One invocation's input to the runtime.
#[derive(Debug)]
pub struct RuntimeInput {
    /// Reference naming the pre-state.
    pre_state_ref: StateReference,
    /// Outer pre-state referring to `inner_pre_state`.
    moho_pre_state: MohoState,
    /// The encoded inner pre-state that the transition is computed on.
    inner_pre_state: Vec<u8>,
    /// The encoded payload whose transition is being computed.
    input_payload: Vec<u8>,
    /// Commitment to the post-state.
    post_state_commitment: MohoStateCommitment,
}

impl View for RuntimeInput {
    type V = RuntimeInputView;

    closed spec fn view(&self) -> RuntimeInputView {
        RuntimeInputView {
            pre_state_ref: self.pre_state_ref@,
            moho_pre_state: self.moho_pre_state@,
            inner_pre_state: self.inner_pre_state@,
            input_payload: self.input_payload@,
            post_state_commitment: self.post_state_commitment@,
        }
    }
}

impl RuntimeInput {
    /// Assemble a runtime input from its five fields.
    pub fn new(
        pre_state_ref: StateReference,
        moho_pre_state: MohoState,
        inner_pre_state: Vec<u8>,
        input_payload: Vec<u8>,
        post_state_commitment: MohoStateCommitment,
    ) -> (r: Self)
        ensures
            r@ == (RuntimeInputView {
                pre_state_ref: pre_state_ref@,
                moho_pre_state: moho_pre_state@,
                inner_pre_state: inner_pre_state@,
                input_payload: input_payload@,
                post_state_commitment: post_state_commitment@,
            }),
    {
        RuntimeInput {
            pre_state_ref,
            moho_pre_state,
            inner_pre_state,
            input_payload,
            post_state_commitment,
        }
    }

    /// The reference naming the pre-state.
    pub fn pre_state_ref(&self) -> (r: &StateReference)
        ensures
            r@ == self@.pre_state_ref,
    {
        &self.pre_state_ref
    }

    /// The outer pre-state.
    pub fn moho_pre_state(&self) -> (r: &MohoState)
        ensures
            r@ == self@.moho_pre_state,
    {
        &self.moho_pre_state
    }

    /// The encoded inner pre-state.
    pub fn inner_pre_state(&self) -> (r: &Vec<u8>)
        ensures
            r@ == self@.inner_pre_state,
    {
        &self.inner_pre_state
    }

    /// The encoded step payload.
    pub fn input_payload(&self) -> (r: &Vec<u8>)
        ensures
            r@ == self@.input_payload,
    {
        &self.input_payload
    }

    /// The claimed commitment to the post-state.
    pub fn post_state_commitment(&self) -> (r: &MohoStateCommitment)
        ensures
            r@ == self@.post_state_commitment,
    {
        &self.post_state_commitment
    }

    /// Consume the input and return the outer pre-state.
    pub fn into_pre_state(self) -> (r: MohoState)
        ensures
            r@ == self@.moho_pre_state,
    {
        self.moho_pre_state
    }
}


/// Accepts iff the inner commitment computed from the decoded pre-state
/// matches the one the outer pre-state holds; a mismatch is the inner-state
/// error.
fn require_inner_match(computed: &InnerStateCommitment, claimed: &InnerStateCommitment) -> (r:
    Result<(), RuntimeError>)
    ensures
        r is Ok <==> computed@ == claimed@,
        r is Err ==> r == Result::<(), RuntimeError>::Err(RuntimeError::InnerStateMismatch),
{
    if eq32(computed.inner(), claimed.inner()) {
        Ok(())
    } else {
        Err(RuntimeError::InnerStateMismatch)
    }
}

/// Accepts iff the step input's parent reference names the pre-state; a
/// mismatch is the parent error.
fn require_parent_match(parent: &StateReference, pre_state_ref: &StateReference) -> (r: Result<
    (),
    RuntimeError,
>)
    ensures
        r is Ok <==> parent@ == pre_state_ref@,
        r is Err ==> r == Result::<(), RuntimeError>::Err(RuntimeError::InputParentMismatch),
{
    if eq32(parent.inner(), pre_state_ref.inner()) {
        Ok(())
    } else {
        Err(RuntimeError::InputParentMismatch)
    }
}

/// Accepts iff the commitment the input claims for the post-state matches
/// the one computed from it; a mismatch is the post-commitment error.
fn require_post_commitment_match(
    claimed: &MohoStateCommitment,
    computed: &MohoStateCommitment,
) -> (r: Result<(), RuntimeError>)
    ensures
        r is Ok <==> claimed@ == computed@,
        r is Err ==> r == Result::<(), RuntimeError>::Err(RuntimeError::PostCommitmentMismatch),
{
    if eq32(claimed.inner(), computed.inner()) {
        Ok(())
    } else {
        Err(RuntimeError::PostCommitmentMismatch)
    }
}

/// Computes and checks a transition against the outer pre-state: the decoded
/// inner pre-state must match the commitment held in the outer pre-state and
/// the step input must extend the pre-state reference; the new outer state
/// wraps the inner machine's outputs.
pub fn compute_transition<P: MohoProgram>(
    pre_state_ref: &StateReference,
    pre_moho_state: MohoState,
    pre_inner_state: &P::State,
    input: &P::StepInput,
) -> (r: Result<MohoState, RuntimeError>)
    ensures
        match r {
            Ok(s) => spec_exports_wf(s@.export_state),
            Err(e) => e == RuntimeError::InnerStateMismatch || e
                == RuntimeError::InputParentMismatch,
        },
{
    // The given inner pre-state must match the one the outer pre-state
    // commits to.
    let computed_inner_state_root = P::compute_state_commitment(pre_inner_state);
    let claimed = pre_moho_state.inner_state();
    match require_inner_match(&computed_inner_state_root, &claimed) {
        Ok(_) => (),
        Err(e) => {
            return Err(e);
        },
    }

    // The input's parent must match the pre-state ref, so that the chain is
    // extended correctly.
    let input_parent_ref = P::extract_prev_reference(input);
    match require_parent_match(&input_parent_ref, pre_state_ref) {
        Ok(_) => (),
        Err(e) => {
            return Err(e);
        },
    }

    // Compute the new inner state and wrap it.
    let output = P::process_transition(pre_inner_state, input);
    Ok(compute_wrapping_moho_state::<P>(pre_moho_state, &output))
}

/// Computes the new outer state from the inner machine's step output: the
/// new inner commitment, the next predicate key (the previous one if the
/// machine installed none), and the updated export state.
fn compute_wrapping_moho_state<P: MohoProgram>(
    moho_state: MohoState,
    step_output: &P::StepOutput,
) -> (r: MohoState)
    ensures
        spec_exports_wf(r@.export_state),
{
    let post_inner_state = P::extract_post_state(step_output);
    let post_inner_root = P::compute_state_commitment(post_inner_state);

    // Use the updated predicate key if one was installed, otherwise keep the
    // previous one.
    let next_predicate = match P::extract_next_predicate(step_output) {
        Some(predicate) => predicate,
        None => moho_state.next_predicate(),
    };

    let new_export_state = P::compute_export_state(moho_state.into_export_state(), step_output);

    MohoState::new(post_inner_root, next_predicate, new_export_state)
}

/// Verifies the runtime's input: the decoded inner pre-state and step input
/// must extend the pre-state, and the computed post-state must match the
/// commitment the input claims.  Returns the attestation for the state
/// transition: from the pre-state reference with the pre-state's own
/// commitment, to the computed post state under the claimed commitment.
pub fn verify_input<P: MohoProgram>(
    input: RuntimeInput,
    inner_pre_state: &P::State,
    inner_input: &P::StepInput,
) -> (r: Result<MohoAttestation, RuntimeError>)
    requires
        spec_exports_wf(input@.moho_pre_state.export_state),
    ensures
        match r {
            Ok(att) => {
                &&& att@.genesis.reference == input@.pre_state_ref
                &&& att@.genesis.commitment == spec_moho_commitment(input@.moho_pre_state)
                &&& att@.proven.commitment == input@.post_state_commitment
            },
            Err(e) => e == RuntimeError::InnerStateMismatch || e
                == RuntimeError::InputParentMismatch || e == RuntimeError::PostCommitmentMismatch,
        },
{
    let pre_state_ref = *input.pre_state_ref();
    let pre_commitment = input.moho_pre_state().compute_commitment();
    let pre_ref_att = StateRefAttestation::new(pre_state_ref, pre_commitment);

    let post_commitment = *input.post_state_commitment();

    // The input's parent must extend the pre-state reference.
    let input_ref = P::compute_input_reference(inner_input);
    let post_state = match compute_transition::<P>(
        &pre_state_ref,
        input.into_pre_state(),
        inner_pre_state,
        inner_input,
    ) {
        Ok(s) => s,
        Err(e) => {
            return Err(e);
        },
    };

    // The computed post state must match the commitment claimed by the
    // input.
    let post_state_commitment = post_state.compute_commitment();
    match require_post_commitment_match(&post_commitment, &post_state_commitment) {
        Ok(_) => (),
        Err(e) => {
            return Err(e);
        },
    }
    let post_ref_att = StateRefAttestation::new(input_ref, post_commitment);

    // Assemble the final attestation.
    Ok(MohoAttestation::new(pre_ref_att, post_ref_att))
}

} // verus!
