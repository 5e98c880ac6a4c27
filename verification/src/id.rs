//! Reference types: opaque 32-byte identifiers and digests.

use vstd::prelude::*;
use vstd::array::array_as_slice;

verus! {

/// An opaque 32-byte identifier naming a point in the inner history.
#[derive(Debug, Clone, Copy, PartialEq, Eq)]
pub struct StateReference {
    bytes: [u8; 32],
}

impl View for StateReference {
    type V = Seq<u8>;

    closed spec fn view(&self) -> Seq<u8> {
        self.bytes@
    }
}

impl StateReference {
    /// Wrap 32 raw bytes.
    pub fn new(inner: [u8; 32]) -> (r: Self)
        ensures
            r@ == inner@,
    {
        StateReference { bytes: inner }
    }

    /// The 32 bytes.
    pub fn inner(&self) -> (r: &[u8; 32])
        ensures
            r@ == self@,
    {
        &self.bytes
    }

    /// The 32 bytes, by value.
    pub fn into_inner(self) -> (r: [u8; 32])
        ensures
            r@ == self@,
    {
        self.bytes
    }

    /// The bytes as a slice.
    pub fn as_bytes(&self) -> (r: &[u8])
        ensures
            r@ == self@,
    {
        array_as_slice(&self.bytes)
    }
}

/// A 32-byte digest of the inner state, opaque to this layer.
#[derive(Debug, Clone, Copy, PartialEq, Eq)]
pub struct InnerStateCommitment {
    bytes: [u8; 32],
}

impl View for InnerStateCommitment {
    type V = Seq<u8>;

    closed spec fn view(&self) -> Seq<u8> {
        self.bytes@
    }
}

impl InnerStateCommitment {
    /// Wrap 32 raw bytes.
    pub fn new(inner: [u8; 32]) -> (r: Self)
        ensures
            r@ == inner@,
    {
        InnerStateCommitment { bytes: inner }
    }

    /// The 32 bytes.
    pub fn inner(&self) -> (r: &[u8; 32])
        ensures
            r@ == self@,
    {
        &self.bytes
    }

    /// The 32 bytes, by value.
    pub fn into_inner(self) -> (r: [u8; 32])
        ensures
            r@ == self@,
    {
        self.bytes
    }

    /// The bytes as a slice.
    pub fn as_bytes(&self) -> (r: &[u8])
        ensures
            r@ == self@,
    {
        array_as_slice(&self.bytes)
    }
}

/// The canonical 32-byte hash of the outer state.
#[derive(Debug, Clone, Copy, PartialEq, Eq)]
pub struct MohoStateCommitment {
    bytes: [u8; 32],
}

impl View for MohoStateCommitment {
    type V = Seq<u8>;

    closed spec fn view(&self) -> Seq<u8> {
        self.bytes@
    }
}

impl MohoStateCommitment {
    /// Wrap 32 raw bytes.
    pub fn new(inner: [u8; 32]) -> (r: Self)
        ensures
            r@ == inner@,
    {
        MohoStateCommitment { bytes: inner }
    }

    /// The 32 bytes.
    pub fn inner(&self) -> (r: &[u8; 32])
        ensures
            r@ == self@,
    {
        &self.bytes
    }

    /// The 32 bytes, by value.
    pub fn into_inner(self) -> (r: [u8; 32])
        ensures
            r@ == self@,
    {
        self.bytes
    }

    /// The bytes as a slice.
    pub fn as_bytes(&self) -> (r: &[u8])
        ensures
            r@ == self@,
    {
        array_as_slice(&self.bytes)
    }
}

} // verus!
