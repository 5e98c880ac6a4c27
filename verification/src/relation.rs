//! Public commitments to protocol relations.
//!
//! Conceptually, a recursive proof attests to correctness of the state of
//! some inner state machine and its public exports as of some state
//! reference.

use vstd::prelude::*;
use crate::hash::eq32;
use crate::id::{MohoStateCommitment, StateReference};

verus! {

/// The mathematical value of a state-ref attestation.
pub ghost struct StateRefAttestationView {
    pub reference: Seq<u8>,
    pub commitment: Seq<u8>,
}

/// A mapping of a state reference to its corresponding state commitment.
#[derive(Debug, Clone, Copy, PartialEq, Eq)]
pub struct StateRefAttestation {
    reference: StateReference,
    commitment: MohoStateCommitment,
}

impl View for StateRefAttestation {
    type V = StateRefAttestationView;

    closed spec fn view(&self) -> StateRefAttestationView {
        StateRefAttestationView { reference: self.reference@, commitment: self.commitment@ }
    }
}

impl StateRefAttestation {
    /// Pair a reference with the outer commitment that held at it.
    pub fn new(reference: StateReference, commitment: MohoStateCommitment) -> (r: Self)
        ensures
            r@ == (StateRefAttestationView { reference: reference@, commitment: commitment@ }),
    {
        StateRefAttestation { reference, commitment }
    }

    /// The state reference.
    pub fn reference(&self) -> (r: &StateReference)
        ensures
            r@ == self@.reference,
    {
        &self.reference
    }

    /// The outer commitment.
    pub fn commitment(&self) -> (r: &MohoStateCommitment)
        ensures
            r@ == self@.commitment,
    {
        &self.commitment
    }

    /// Byte-wise equality of two attestations.
    pub fn matches(&self, other: &Self) -> (r: bool)
        ensures
            r <==> self@ == other@,
    {
        let r = eq32(self.reference.inner(), other.reference.inner()) && eq32(
            self.commitment.inner(),
            other.commitment.inner(),
        );
        r
    }
}

/// The mathematical value of an aggregated attestation.
pub ghost struct MohoAttestationView {
    pub genesis: StateRefAttestationView,
    pub proven: StateRefAttestationView,
}

/// The aggregated state transformation that a recursive proof verifies: a
/// chain from the genesis state to the proven state.
#[derive(Debug, Clone, Copy, PartialEq, Eq)]
pub struct MohoAttestation {
    /// Commitment to the base case state.
    genesis: StateRefAttestation,
    /// The ref to the state proven as a chain from the genesis state.
    proven: StateRefAttestation,
}

impl View for MohoAttestation {
    type V = MohoAttestationView;

    closed spec fn view(&self) -> MohoAttestationView {
        MohoAttestationView { genesis: self.genesis@, proven: self.proven@ }
    }
}

impl MohoAttestation {
    /// Pair the genesis attestation with the proven attestation.
    pub fn new(genesis: StateRefAttestation, proven: StateRefAttestation) -> (r: Self)
        ensures
            r@ == (MohoAttestationView { genesis: genesis@, proven: proven@ }),
    {
        MohoAttestation { genesis, proven }
    }

    /// The attestation of the base case state.
    pub fn genesis(&self) -> (r: &StateRefAttestation)
        ensures
            r@ == self@.genesis,
    {
        &self.genesis
    }

    /// The attestation of the proven state.
    pub fn proven(&self) -> (r: &StateRefAttestation)
        ensures
            r@ == self@.proven,
    {
        &self.proven
    }
}

} // verus!
