//! The transition algebra: ordered pairs of state-ref attestations and their
//! chaining, and transitions accompanied by a witness.

use vstd::prelude::*;
use crate::codec::{encode_transition, spec_encode_transition};
use crate::errors::{InvalidProofError, TransitionChainError};
use crate::predicate::{clone_bytes, PredicateKey};
use crate::relation::{StateRefAttestation, StateRefAttestationView};

verus! {

/// The mathematical value of a transition.
pub ghost struct TransitionView {
    pub from_state: StateRefAttestationView,
    pub to_state: StateRefAttestationView,
}

/// Whether two transitions adjoin: the first ends where the second starts.
pub open spec fn spec_chainable(first: TransitionView, second: TransitionView) -> bool {
    first.to_state == second.from_state
}

/// The composition of two adjoining transitions.
pub open spec fn spec_chain(first: TransitionView, second: TransitionView) -> TransitionView {
    TransitionView { from_state: first.from_state, to_state: second.to_state }
}

/// Represents a state transition between two states.
#[derive(Debug, Clone, Copy, PartialEq, Eq)]
pub struct Transition {
    /// The state before the transition occurs.
    from_state: StateRefAttestation,
    /// The state after the transition completes.
    to_state: StateRefAttestation,
}

/// A state transition in the protocol, capturing the movement between two
/// attested state references with their corresponding commitments.
pub type MohoStateTransition = Transition;

impl View for Transition {
    type V = TransitionView;

    closed spec fn view(&self) -> TransitionView {
        TransitionView { from_state: self.from_state@, to_state: self.to_state@ }
    }
}

impl Transition {
    /// Creates a new transition from one state to another.
    pub fn new(from: StateRefAttestation, to: StateRefAttestation) -> (r: Self)
        ensures
            r@ == (TransitionView { from_state: from@, to_state: to@ }),
    {
        Transition { from_state: from, to_state: to }
    }

    /// The starting state before the transition occurs.
    pub fn from(&self) -> (r: &StateRefAttestation)
        ensures
            r@ == self@.from_state,
    {
        &self.from_state
    }

    /// The final state after the transition completes.
    pub fn to(&self) -> (r: &StateRefAttestation)
        ensures
            r@ == self@.to_state,
    {
        &self.to_state
    }

    /// Consumes the transition and returns the states before and after it.
    pub fn into_states(self) -> (r: (StateRefAttestation, StateRefAttestation))
        ensures
            r.0@ == self@.from_state,
            r.1@ == self@.to_state,
    {
        (self.from_state, self.to_state)
    }

    /// Whether this transition represents no change.
    pub fn is_no_op(&self) -> (r: bool)
        ensures
            r <==> self@.from_state == self@.to_state,
    {
        self.from_state.matches(&self.to_state)
    }

    /// Merges this transition with another transition into a single composite
    /// transition.  Succeeds iff the `to` state of this transition equals the
    /// `from` state of the next; the error carries both endpoints.
    pub fn chain(self, next: Self) -> (r: Result<Self, TransitionChainError>)
        ensures
            match r {
                Ok(t) => spec_chainable(self@, next@) && t@ == spec_chain(self@, next@),
                Err(e) => !spec_chainable(self@, next@) && e.first_end_state@ == self@.to_state
                    && e.second_start_state@ == next@.from_state,
            },
    {
        if self.to_state.matches(&next.from_state) {
            Ok(Transition { from_state: self.from_state, to_state: next.to_state })
        } else {
            Err(
                TransitionChainError {
                    first_end_state: self.to_state,
                    second_start_state: next.from_state,
                },
            )
        }
    }
}

/// A no-op transition is a left identity of chaining: chaining it before any
/// compatible transition yields that transition.
pub proof fn lemma_no_op_chains_left(t: TransitionView, u: TransitionView)
    requires
        t.from_state == t.to_state,
        spec_chainable(t, u),
    ensures
        spec_chain(t, u) == u,
{
}

/// A no-op transition is a right identity of chaining: chaining it after any
/// compatible transition yields that transition.
pub proof fn lemma_no_op_chains_right(t: TransitionView, u: TransitionView)
    requires
        t.from_state == t.to_state,
        spec_chainable(u, t),
    ensures
        spec_chain(u, t) == u,
{
}

/// Chaining is associative where defined, and composing on either side
/// preserves chainability with the third transition.
pub proof fn lemma_chain_associative(t1: TransitionView, t2: TransitionView, t3: TransitionView)
    requires
        spec_chainable(t1, t2),
        spec_chainable(t2, t3),
    ensures
        spec_chainable(spec_chain(t1, t2), t3),
        spec_chainable(t1, spec_chain(t2, t3)),
        spec_chain(spec_chain(t1, t2), t3) == spec_chain(t1, spec_chain(t2, t3)),
{
}

/// The mathematical value of a transition with its witness.
pub ghost struct TransitionWithProofView {
    pub transition: TransitionView,
    pub witness: Seq<u8>,
}

/// A state transition accompanied by a witness that a predicate accepts it.
#[derive(Debug, PartialEq, Eq)]
pub struct MohoTransitionWithProof {
    transition: Transition,
    witness: Vec<u8>,
}

impl View for MohoTransitionWithProof {
    type V = TransitionWithProofView;

    closed spec fn view(&self) -> TransitionWithProofView {
        TransitionWithProofView { transition: self.transition@, witness: self.witness@ }
    }
}

impl Clone for MohoTransitionWithProof {
    /// A clone carries the same transition and witness.
    fn clone(&self) -> (r: Self)
        ensures
            r@ == self@,
    {
        MohoTransitionWithProof {
            transition: self.transition,
            witness: clone_bytes(&self.witness),
        }
    }
}

impl MohoTransitionWithProof {
    /// Pair a state transition with its witness.
    pub fn new(transition: Transition, witness: Vec<u8>) -> (r: Self)
        ensures
            r@ == (TransitionWithProofView { transition: transition@, witness: witness@ }),
    {
        MohoTransitionWithProof { transition, witness }
    }

    /// The inner transition.
    pub fn transition(&self) -> (r: &Transition)
        ensures
            r@ == self@.transition,
    {
        &self.transition
    }

    /// The witness bytes.
    pub fn witness(&self) -> (r: &Vec<u8>)
        ensures
            r@ == self@.witness,
    {
        &self.witness
    }

    /// Consumes `self` and returns the inner transition and the witness.
    pub fn into_parts(self) -> (r: (Transition, Vec<u8>))
        ensures
            r.0@ == self@.transition,
            r.1@ == self@.witness,
    {
        (self.transition, self.witness)
    }

    /// Verifies the transition's witness against the given predicate key.
    /// The claim handed to the predicate is the canonical encoding of the
    /// transition.
    pub fn verify(&self, verifier: &PredicateKey) -> (r: Result<(), InvalidProofError>)
        ensures
            match r {
                Ok(_) => verifier@.accepts(spec_encode_transition(self@.transition), self@.witness),
                Err(e) => !verifier@.accepts(
                    spec_encode_transition(self@.transition),
                    self@.witness,
                ) && e.0@ == self@.transition,
            },
    {
        let claim = encode_transition(&self.transition);
        if verifier.verify_claim_witness(claim.as_slice(), self.witness.as_slice()) {
            Ok(())
        } else {
            Err(InvalidProofError(self.transition))
        }
    }
}

} // verus!
