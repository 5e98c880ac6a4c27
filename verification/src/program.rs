//! Input and output of one recursion step.

use vstd::prelude::*;
use crate::predicate::{PredicateKey, PredicateKeyView};
use crate::ssz_merkle_utils::{InclusionProofView, SszLeafInclusionProof};
use crate::transition::{MohoTransitionWithProof, Transition, TransitionView, TransitionWithProofView};

verus! {

/// The mathematical value of a recursion-step input.
pub ghost struct MohoRecursiveInputView {
    pub moho_predicate: PredicateKeyView,
    pub prev_recursive_proof: Option<TransitionWithProofView>,
    pub incremental_step_proof: TransitionWithProofView,
    pub step_predicate: PredicateKeyView,
    pub step_predicate_merkle_proof: InclusionProofView,
}

/// Input for one recursion step, combining a previous recursive proof (if
/// one exists) with a new incremental step proof.  Each step folds an
/// arbitrarily long chain of state transitions into a constant-size
/// attestation.
#[derive(Debug, PartialEq, Eq)]
pub struct MohoRecursiveInput {
    /// The recursion's own predicate key, needed to verify the previous
    /// recursive proof.
    pub moho_predicate: PredicateKey,
    /// Previous recursive proof, absent at the base of the induction.
    pub prev_recursive_proof: Option<MohoTransitionWithProof>,
    /// Incremental step proof.
    pub incremental_step_proof: MohoTransitionWithProof,
    /// Predicate key to verify the incremental step proof.
    pub step_predicate: PredicateKey,
    /// Inclusion proof of `step_predicate` within the state the step starts
    /// from.
    pub step_predicate_merkle_proof: SszLeafInclusionProof,
}

impl View for MohoRecursiveInput {
    type V = MohoRecursiveInputView;

    open spec fn view(&self) -> MohoRecursiveInputView {
        MohoRecursiveInputView {
            moho_predicate: self.moho_predicate@,
            prev_recursive_proof: match self.prev_recursive_proof {
                Some(p) => Some(p@),
                None => None,
            },
            incremental_step_proof: self.incremental_step_proof@,
            step_predicate: self.step_predicate@,
            step_predicate_merkle_proof: self.step_predicate_merkle_proof@,
        }
    }
}

impl Clone for MohoRecursiveInput {
    /// A clone carries the same fields.
    fn clone(&self) -> (r: Self)
        ensures
            r@ == self@,
    {
        MohoRecursiveInput {
            moho_predicate: self.moho_predicate.clone(),
            prev_recursive_proof: match &self.prev_recursive_proof {
                Some(p) => Some(p.clone()),
                None => None,
            },
            incremental_step_proof: self.incremental_step_proof.clone(),
            step_predicate: self.step_predicate.clone(),
            step_predicate_merkle_proof: self.step_predicate_merkle_proof.clone(),
        }
    }
}

/// The mathematical value of a recursion-step output.
pub ghost struct MohoRecursiveOutputView {
    pub transition: TransitionView,
    pub moho_predicate: PredicateKeyView,
}

/// Output committed by one recursion step.  The verifier of the proof must
/// check both the transition and that the committed predicate is the
/// expected one, since the recursion cannot hardcode its own predicate.
#[derive(Debug, PartialEq, Eq)]
pub struct MohoRecursiveOutput {
    /// State transition proven by this recursion step.
    pub transition: Transition,
    /// Predicate key used to verify the previous recursive proof, committed
    /// as public output.
    pub moho_predicate: PredicateKey,
}

impl View for MohoRecursiveOutput {
    type V = MohoRecursiveOutputView;

    open spec fn view(&self) -> MohoRecursiveOutputView {
        MohoRecursiveOutputView {
            transition: self.transition@,
            moho_predicate: self.moho_predicate@,
        }
    }
}

impl Clone for MohoRecursiveOutput {
    /// A clone carries the same fields.
    fn clone(&self) -> (r: Self)
        ensures
            r@ == self@,
    {
        MohoRecursiveOutput {
            transition: self.transition,
            moho_predicate: self.moho_predicate.clone(),
        }
    }
}

/// The recursion step as a host-agnostic program.
#[derive(Debug)]
pub struct MohoRecursiveProgram;

} // verus!
