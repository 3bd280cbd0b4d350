use vstd::prelude::*;

verus! {

/// Why an operation of the terrain core turned its input down.
#[derive(Clone, Copy, Debug, PartialEq, Eq, Structural)]
pub enum TerrainError {
    /// An argument lies outside the range the operation is defined on.
    InvalidArgument,
    /// A buffer does not have the length that the requested grid needs.
    SizeMismatch,
}

} // verus!
