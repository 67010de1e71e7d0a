//! The ways in which building an arena or carving a block can fail.

use vstd::prelude::*;

verus! {

/// Why an arena could not be built.
#[derive(Clone, Copy, Debug, PartialEq, Eq)]
pub enum AllocationError {
    /// The requested capacity is larger than any single memory region may be.
    CapacityError,
    /// The backing memory could not be obtained.
    AllocationFailure,
}

/// A request's padding and size together exceed what is left of the arena.
#[derive(Clone, Copy, Debug, PartialEq, Eq)]
pub struct OutOfMemory;

} // verus!
