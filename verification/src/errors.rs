//! Error types for state operations and the recursion driver.

use vstd::prelude::*;
use crate::relation::StateRefAttestation;
use crate::transition::Transition;

verus! {

/// Errors that can occur when working with export state.
#[derive(Debug, Clone, Copy, PartialEq, Eq)]
pub enum ExportStateError {
    /// Container with the specified ID was not found.
    ContainerNotFound(u8),
    /// Failed to add an entry: the container's capacity would be exceeded.
    AddEntryFailed,
}

/// Two transitions cannot be chained: the end of the first does not align
/// with the start of the second.
#[derive(Debug, Clone, Copy, PartialEq, Eq)]
pub struct TransitionChainError {
    /// The end state of the first transition.
    pub first_end_state: StateRefAttestation,
    /// The start state of the second transition.
    pub second_start_state: StateRefAttestation,
}

/// A transition's witness was rejected by the predicate it was verified
/// under; carries the rejected transition.
#[derive(Debug, Clone, Copy)]
pub struct InvalidProofError(pub Transition);

/// Errors that can occur when processing a recursion step.
#[derive(Debug, Clone, Copy)]
pub enum MohoError {
    /// Two transitions cannot be chained because the end of the first does
    /// not align with the start of the second.
    InvalidMohoChain(TransitionChainError),
    /// The incremental proof for a transition is invalid.
    InvalidIncrementalProof(InvalidProofError),
    /// The recursive proof for a transition is invalid.
    InvalidRecursiveProof(InvalidProofError),
    /// A Merkle proof provided is invalid.
    InvalidMerkleProof,
    /// The input bytes are not a valid encoding of a recursion-step input.
    DecodeError,
}

} // verus!
