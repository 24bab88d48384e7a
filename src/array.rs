//! Translation of the engine's raw array statuses into typed results.
use vstd::prelude::*;
use crate::error::{ArrayError, LibpdError, SizeError};

verus! {

/// Status the engine gives when no array carries the requested name.
pub const STATUS_NO_ARRAY: i32 = -1;

/// Status the engine gives when a copy would leave the bounds of the array.
pub const STATUS_OUT_OF_BOUNDS: i32 = -2;

/// What a size query means, given the engine's answer.
pub open spec fn size_outcome(status: i32) -> Result<i32, LibpdError> {
    if status >= 0 {
        Ok(status)
    } else {
        Err(LibpdError::SizeError(SizeError::CouldNotDetermine))
    }
}

/// What a resize request means, given the engine's status.
pub open spec fn resize_outcome(status: i32) -> Result<(), LibpdError> {
    if status == 0 {
        Ok(())
    } else {
        Err(LibpdError::SizeError(SizeError::CouldNotDetermine))
    }
}

/// What a read or a write means, given the engine's status.
pub open spec fn transfer_outcome(status: i32) -> Result<(), LibpdError> {
    if status == 0 {
        Ok(())
    } else if status == STATUS_OUT_OF_BOUNDS {
        Err(LibpdError::ArrayError(ArrayError::OutOfBounds))
    } else {
        Err(LibpdError::ArrayError(ArrayError::NonExistent))
    }
}

/// Turns the answer of a size query into the array's length, or an error
/// when the answer is negative.
pub fn size_from_status(status: i32) -> (r: Result<i32, LibpdError>)
    ensures
        r == size_outcome(status),
{
    if status >= 0 {
        Ok(status)
    } else {
        Err(LibpdError::SizeError(SizeError::CouldNotDetermine))
    }
}

/// Turns the status of a resize request into success (zero) or an error.
pub fn resize_from_status(status: i32) -> (r: Result<(), LibpdError>)
    ensures
        r == resize_outcome(status),
{
    if status == 0 {
        Ok(())
    } else {
        Err(LibpdError::SizeError(SizeError::CouldNotDetermine))
    }
}

/// Turns the status of a read or a write into success (zero), an
/// out-of-bounds error (the engine's bounds status) or a missing-array error
/// (any other status).
pub fn transfer_from_status(status: i32) -> (r: Result<(), LibpdError>)
    ensures
        r == transfer_outcome(status),
{
    if status == 0 {
        Ok(())
    } else if status == STATUS_OUT_OF_BOUNDS {
        Err(LibpdError::ArrayError(ArrayError::OutOfBounds))
    } else {
        Err(LibpdError::ArrayError(ArrayError::NonExistent))
    }
}

} // verus!
