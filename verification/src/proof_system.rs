//! Abstraction over the inner proving system.

use vstd::prelude::*;

verus! {

/// Verification key for the inner state transition.
#[derive(Debug, Clone, PartialEq, Eq)]
pub struct InnerVerificationKey {
    bytes: Vec<u8>,
}

impl View for InnerVerificationKey {
    type V = Seq<u8>;

    closed spec fn view(&self) -> Seq<u8> {
        self.bytes@
    }
}

impl InnerVerificationKey {
    /// Wrap raw verification-key bytes.
    pub fn new(bytes: Vec<u8>) -> (r: Self)
        ensures
            r@ == bytes@,
    {
        InnerVerificationKey { bytes }
    }

    /// The raw bytes.
    pub fn bytes(&self) -> (r: &Vec<u8>)
        ensures
            r@ == self@,
    {
        &self.bytes
    }
}

/// Generic proof bytes.
#[derive(Debug, Clone, Copy)]
pub struct Proof<'p> {
    bytes: &'p [u8],
}

impl<'p> View for Proof<'p> {
    type V = Seq<u8>;

    closed spec fn view(&self) -> Seq<u8> {
        self.bytes@
    }
}

impl<'p> Proof<'p> {
    /// Wrap borrowed proof bytes.
    pub fn new(bytes: &'p [u8]) -> (r: Self)
        ensures
            r@ == bytes@,
    {
        Proof { bytes }
    }

    /// The raw bytes.
    pub fn bytes(&self) -> (r: &'p [u8])
        ensures
            r@ == self@,
    {
        self.bytes
    }
}

/// Generic public parameters.
#[derive(Debug, Clone, Copy)]
pub struct PublicParams<'i> {
    bytes: &'i [u8],
}

impl<'i> View for PublicParams<'i> {
    type V = Seq<u8>;

    closed spec fn view(&self) -> Seq<u8> {
        self.bytes@
    }
}

impl<'i> PublicParams<'i> {
    /// Wrap borrowed parameter bytes.
    pub fn new(bytes: &'i [u8]) -> (r: Self)
        ensures
            r@ == bytes@,
    {
        PublicParams { bytes }
    }

    /// The raw bytes.
    pub fn bytes(&self) -> (r: &'i [u8])
        ensures
            r@ == self@,
    {
        self.bytes
    }
}

/// Abstraction over the inner proof proving system.
pub trait ProofSystem {
    /// Sanity checks a verification key.  If this returns false, the proof
    /// is invalid.
    fn check_vk(vk: &InnerVerificationKey) -> bool;

    /// Verifies a proof against a verification key.  If this returns false,
    /// the proof is invalid.
    fn verify_proof<'p>(
        vk: &InnerVerificationKey,
        pf: &Proof<'p>,
        public_params: &PublicParams<'p>,
    ) -> bool;
}

} // verus!
