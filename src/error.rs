use vstd::prelude::*;

verus! {

/// What the store's decisions can fail with. Failures of the storage engine
/// and of the filesystem belong to the caller that drives storage.
#[derive(Debug, Clone, PartialEq, Eq)]
pub enum VectorDBError {
    /// An embedding could not be encoded or decoded; carries the cause.
    Serialization(String),
    /// An embedding's length differs from the store's established dimension.
    InvalidDimension { expected: usize, got: usize },
}

} // verus!
