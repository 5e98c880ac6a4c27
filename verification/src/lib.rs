//! Recursive attestation engine for a layered state-commitment protocol.
//!
//! The library verifies that a sequence of inner state transitions has been
//! faithfully executed and folds the history into a single constant-size
//! recursive attestation.  It provides the outer state container with its
//! canonical commitment, the field-inclusion proof mechanism, the
//! predicate-based verifier abstraction, the transition-chaining algebra and
//! the recursion driver that ties them together.

pub mod codec;
pub mod constants;
pub mod errors;
pub mod hash;
pub mod id;
pub mod merkle;
pub mod predicate;
pub mod program;
pub mod proof_system;
pub mod relation;
pub mod runtime;
pub mod ssz_merkle_utils;
pub mod state;
pub mod statements;
pub mod transition;
