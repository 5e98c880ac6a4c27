//! The recursion driver: verify one incremental step against the history and
//! chain it on.

use vstd::prelude::*;
use crate::codec::{
    decode_recursive_input, encode_recursive_output, spec_decode_input_exact,
    spec_encode_output, spec_encode_transition,
};
use crate::constants::{PREDICATE_CHUNK_LIMIT, PREDICATE_FIELD_INDEX};
use crate::errors::MohoError;
use crate::merkle::{fold_branch, lemma_is_pow2_constants};
use crate::predicate::PredicateKeyView;
use crate::program::{
    MohoRecursiveInput, MohoRecursiveInputView, MohoRecursiveOutput, MohoRecursiveOutputView,
};
use crate::relation::StateRefAttestationView;
use crate::ssz_merkle_utils::{spec_byte_list_root, byte_list_root, SszFieldMerkle};
use crate::transition::{spec_chain, MohoStateTransition, TransitionView};

verus! {

/// The leaf under which a predicate key is bound in the outer state tree:
/// the canonical hash of its encoding.
pub open spec fn spec_predicate_leaf(p: PredicateKeyView) -> Seq<u8> {
    spec_byte_list_root(p.to_bytes(), PREDICATE_CHUNK_LIMIT as nat)
}

/// Whether the step predicate of `iv` is bound at the predicate position of
/// the outer commitment the step starts from: the inclusion proof names that
/// position and folds from the predicate's leaf back to the commitment.
pub open spec fn spec_inclusion_ok(iv: MohoRecursiveInputView) -> bool {
    &&& iv.step_predicate_merkle_proof.leaf_index == PREDICATE_FIELD_INDEX
    &&& fold_branch(
        spec_predicate_leaf(iv.step_predicate),
        iv.step_predicate_merkle_proof.branch,
        iv.step_predicate_merkle_proof.leaf_index as nat,
    ) == iv.incremental_step_proof.transition.from_state.commitment
}

/// The outcome of one recursion step, as a function of the input.
pub ghost enum RecursionStepOutcome {
    /// The step was accepted; the payload is the complete transition.
    Accepted(TransitionView),
    /// The step predicate is not bound by the prior outer commitment.
    BadInclusion,
    /// The step predicate rejected the step's transition/witness pair.
    BadStepProof(TransitionView),
    /// The recursion predicate rejected the previous transition/witness pair.
    BadRecursiveProof(TransitionView),
    /// The previous transition does not end where the step begins.
    BadChain(StateRefAttestationView, StateRefAttestationView),
}

/// What one recursion step decides, for every input: the checks run in a
/// fixed order and the first failure is reported.
pub open spec fn spec_process_outcome(iv: MohoRecursiveInputView) -> RecursionStepOutcome {
    let step = iv.incremental_step_proof;
    if !spec_inclusion_ok(iv) {
        RecursionStepOutcome::BadInclusion
    } else if !iv.step_predicate.accepts(spec_encode_transition(step.transition), step.witness) {
        RecursionStepOutcome::BadStepProof(step.transition)
    } else {
        match iv.prev_recursive_proof {
            None => RecursionStepOutcome::Accepted(step.transition),
            Some(prev) => {
                if !iv.moho_predicate.accepts(
                    spec_encode_transition(prev.transition),
                    prev.witness,
                ) {
                    RecursionStepOutcome::BadRecursiveProof(prev.transition)
                } else if prev.transition.to_state != step.transition.from_state {
                    RecursionStepOutcome::BadChain(
                        prev.transition.to_state,
                        step.transition.from_state,
                    )
                } else {
                    RecursionStepOutcome::Accepted(spec_chain(prev.transition, step.transition))
                }
            },
        }
    }
}

/// Whether an executable result reports exactly the given outcome.
pub open spec fn result_matches_outcome(
    r: Result<MohoStateTransition, MohoError>,
    o: RecursionStepOutcome,
) -> bool {
    match o {
        RecursionStepOutcome::Accepted(t) => r matches Ok(rt) && rt@ == t,
        RecursionStepOutcome::BadInclusion => r matches Err(MohoError::InvalidMerkleProof),
        RecursionStepOutcome::BadStepProof(t) => r matches Err(
            MohoError::InvalidIncrementalProof(e),
        ) && e.0@ == t,
        RecursionStepOutcome::BadRecursiveProof(t) => r matches Err(
            MohoError::InvalidRecursiveProof(e),
        ) && e.0@ == t,
        RecursionStepOutcome::BadChain(a, b) => r matches Err(MohoError::InvalidMohoChain(e))
            && e.first_end_state@ == a && e.second_start_state@ == b,
    }
}

/// Verifies the incremental and recursive proofs and chains the
/// corresponding transitions into a complete state transition.
///
/// In order:
/// 1. The step predicate key must be bound at the predicate position of the
///    outer commitment the step starts from.
/// 2. The incremental witness must verify under the step predicate.
/// 3. If a previous recursive proof exists, its witness must verify under
///    the recursion predicate and its transition must end where the step
///    begins; the result is then the chained transition.  Without a previous
///    proof the result is the step's own transition.
///
/// The first failure is reported; the outcome is a function of the input
/// alone.
pub fn verify_and_chain_transition(input: MohoRecursiveInput) -> (r: Result<
    MohoStateTransition,
    MohoError,
>)
    ensures
        result_matches_outcome(r, spec_process_outcome(input@)),
{
    proof {
        lemma_is_pow2_constants();
    }
    // 1: the incremental proof's predicate key must be part of the outer
    // commitment of the state the step starts from, at the predicate's own
    // position.
    if input.step_predicate_merkle_proof.leaf_index as usize != PREDICATE_FIELD_INDEX {
        return Err(MohoError::InvalidMerkleProof);
    }
    let pred_bytes = input.step_predicate.to_bytes();
    let next_predicate_hash = byte_list_root(pred_bytes.as_slice(), PREDICATE_CHUNK_LIMIT);
    let expected_root = input.incremental_step_proof.transition().from().commitment();
    let included = SszFieldMerkle::verify_proof(
        expected_root.inner(),
        &input.step_predicate_merkle_proof,
        &next_predicate_hash,
    );
    if !included {
        return Err(MohoError::InvalidMerkleProof);
    }

    // 2: the incremental step witness must verify under the step predicate.
    match input.incremental_step_proof.verify(&input.step_predicate) {
        Ok(_) => (),
        Err(e) => {
            return Err(MohoError::InvalidIncrementalProof(e));
        },
    }

    let (step_t, _step_witness) = input.incremental_step_proof.into_parts();

    // 3: handle the previous recursive proof and chain the transitions.
    match input.prev_recursive_proof {
        // No previous proof: the step alone is the complete history.
        None => Ok(step_t),
        // A previous proof exists: verify it and chain.
        Some(prev_proof) => {
            match prev_proof.verify(&input.moho_predicate) {
                Ok(_) => (),
                Err(e) => {
                    return Err(MohoError::InvalidRecursiveProof(e));
                },
            }

            let (prev_t, _prev_witness) = prev_proof.into_parts();

            match prev_t.chain(step_t) {
                Ok(t) => Ok(t),
                Err(e) => Err(MohoError::InvalidMohoChain(e)),
            }
        },
    }
}

/// The outcome of a recursion step is a function of the input alone: equal
/// inputs decide equally.
pub proof fn lemma_step_outcome_deterministic(
    i1: MohoRecursiveInputView,
    i2: MohoRecursiveInputView,
)
    requires
        i1 == i2,
    ensures
        spec_process_outcome(i1) == spec_process_outcome(i2),
{
}

/// Endpoint preservation: when a step is accepted, the resulting transition
/// runs from the previous transition's start (or the step's own start, at
/// the base of the induction) to the step's end.
pub proof fn lemma_endpoint_preservation(iv: MohoRecursiveInputView)
    requires
        spec_process_outcome(iv) is Accepted,
    ensures
        match iv.prev_recursive_proof {
            Some(prev) => spec_process_outcome(iv) == RecursionStepOutcome::Accepted(
                TransitionView {
                    from_state: prev.transition.from_state,
                    to_state: iv.incremental_step_proof.transition.to_state,
                },
            ),
            None => spec_process_outcome(iv) == RecursionStepOutcome::Accepted(
                iv.incremental_step_proof.transition,
            ),
        },
{
}

/// Whether a byte-level result reports exactly the given decoded input and
/// outcome: on acceptance the bytes are the canonical encoding of the output,
/// and each failure surfaces as its own error.
pub open spec fn bytes_match_outcome(
    r: Result<Vec<u8>, MohoError>,
    iv: MohoRecursiveInputView,
    o: RecursionStepOutcome,
) -> bool {
    match o {
        RecursionStepOutcome::Accepted(t) => r matches Ok(out) && out@ == spec_encode_output(
            MohoRecursiveOutputView { transition: t, moho_predicate: iv.moho_predicate },
        ),
        RecursionStepOutcome::BadInclusion => r matches Err(MohoError::InvalidMerkleProof),
        RecursionStepOutcome::BadStepProof(t) => r matches Err(
            MohoError::InvalidIncrementalProof(e),
        ) && e.0@ == t,
        RecursionStepOutcome::BadRecursiveProof(t) => r matches Err(
            MohoError::InvalidRecursiveProof(e),
        ) && e.0@ == t,
        RecursionStepOutcome::BadChain(a, b) => r matches Err(MohoError::InvalidMohoChain(e))
            && e.first_end_state@ == a && e.second_start_state@ == b,
    }
}

/// One recursion step over canonical bytes: decode the input, verify and
/// chain, and encode the output.  Fails with a decode error iff the bytes
/// are not exactly the canonical encoding of an input; otherwise the result
/// is a function of the decoded input alone, byte-identical across calls.
pub fn process_recursive_moho_proof(input_bytes: &[u8]) -> (r: Result<Vec<u8>, MohoError>)
    ensures
        match spec_decode_input_exact(input_bytes@) {
            None => r matches Err(MohoError::DecodeError),
            Some(iv) => bytes_match_outcome(r, iv, spec_process_outcome(iv)),
        },
{
    let input = match decode_recursive_input(input_bytes) {
        Some(v) => v,
        None => {
            return Err(MohoError::DecodeError);
        },
    };
    let moho_predicate = input.moho_predicate.clone();
    let transition = match verify_and_chain_transition(input) {
        Ok(t) => t,
        Err(e) => {
            return Err(e);
        },
    };
    let output = MohoRecursiveOutput { transition, moho_predicate };
    Ok(encode_recursive_output(&output))
}

} // verus!
