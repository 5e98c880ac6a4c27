//! Protocol schema constants.

use vstd::prelude::*;

verus! {

/// The maximum number of containers in the export state.
pub const MAX_EXPORT_CONTAINERS: usize = 256;

/// The maximum number of entries in each container.
pub const MAX_EXPORT_ENTRIES: usize = 4096;

/// The maximum size in bytes of an export payload (either on the container or
/// an entry).
pub const MAX_PAYLOAD_SIZE: usize = 4096;

/// The maximum size in bytes of the encoded predicate key (tag byte plus
/// condition) as stored in the outer state.
pub const MAX_PREDICATE_SIZE: usize = 256;

/// The maximum size in bytes of a predicate key's condition.
pub const MAX_CONDITION_SIZE: usize = 255;

/// The number of 32-byte chunks reserved for the encoded predicate key in the
/// outer state tree.
pub const PREDICATE_CHUNK_LIMIT: usize = 8;

/// The outer-tree leaf index at which the next-step predicate's root stands.
pub const PREDICATE_FIELD_INDEX: usize = 1;

} // verus!
