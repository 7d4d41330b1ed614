//! Sample buffers with a read-only / read-write capability fixed in the
//! type, bounds-checked and circular access, and interpolated reads.

pub mod memory_slice;
pub mod mut_mem_slice;

use vstd::prelude::*;

verus! {

/// Errors for buffer handling: an index at or past the length, or a
/// sub-slice request that does not fit inside its parent.
#[derive(Debug, Clone, Copy, PartialEq, Eq, Structural)]
pub enum MemSliceError {
    IndexOutOfBound,
    LengthOutOfBound,
}

/// Read-only capability marker for a [`memory_slice::MemorySlice`].
#[derive(Debug, Clone, Copy)]
pub struct NonMutable;

/// Read-write capability marker for a [`memory_slice::MemorySlice`].
#[derive(Debug, Clone, Copy)]
pub struct Mutable;

/// Capability to read through a slice; both markers carry it.
pub trait NonMutLocation {

}

/// Capability to write through a slice; only [`Mutable`] carries it.
pub trait MutLocation {

}

impl NonMutLocation for NonMutable {

}

impl NonMutLocation for Mutable {

}

impl MutLocation for Mutable {

}

} // verus!
