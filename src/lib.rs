//! Typed access to the named arrays of a running Pure Data patch.
//!
//! The engine reports the outcome of each array call as a raw integer status;
//! [`array`] turns those statuses into typed results, and [`store`] holds an
//! in-memory engine with the same call convention, over which the laws of the
//! accessor are stated and proved.
use vstd::prelude::*;

pub mod error;
pub mod array;
pub mod store;
pub mod laws;
