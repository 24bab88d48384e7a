//! The error kinds that an array call can end in.
use vstd::prelude::*;

verus! {

/// Why the size of an array could not be read or changed.
#[derive(Debug, Clone, Copy, PartialEq, Eq, Structural)]
pub enum SizeError {
    /// The engine found no array of that name, or refused the resize.
    CouldNotDetermine,
}

/// Why a bulk copy to or from an array failed.
#[derive(Debug, Clone, Copy, PartialEq, Eq, Structural)]
pub enum ArrayError {
    /// `offset + count` runs past the end of the array, or one of them is negative.
    OutOfBounds,
    /// No array of that name exists in the patch.
    NonExistent,
}

/// Any failure of an array call.
#[derive(Debug, Clone, Copy, PartialEq, Eq, Structural)]
pub enum LibpdError {
    SizeError(SizeError),
    ArrayError(ArrayError),
}

} // verus!
