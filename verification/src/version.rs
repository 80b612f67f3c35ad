//! The schema-version marker kept in one well-known cell of the store.

use vstd::prelude::*;

verus! {

/// The ordered schema versions this migration knows about.  `V1` is the
/// pre-migration layout, `V2` the post-migration layout; the marker only ever
/// moves forward.
#[derive(Clone, Copy, Debug, PartialEq, Eq, Structural)]
pub enum StorageVersion {
    V1,
    V2,
}

/// Position of a version in the strict order `V1 < V2`.
pub open spec fn version_index(v: StorageVersion) -> int {
    match v {
        StorageVersion::V1 => 1,
        StorageVersion::V2 => 2,
    }
}

} // verus!
