//! Errors reported at the control boundary.  The audio side never fails:
//! it drops what it cannot honor and the frame goes on.

use vstd::prelude::*;

verus! {

/// What can go wrong on the control side.
#[derive(Clone, Copy, Debug, PartialEq, Eq, Structural)]
pub enum AudioError {
    /// The command queue to the audio thread is full.
    CommandQueueFull,
    /// A referenced resource no longer exists.
    ResourceNotFound,
    /// A sequence failed validation: its loop point lies beyond the step
    /// list, a slot is unallocated, or a random choice is empty.
    InvalidSequence,
    /// A resource store is full.
    CapacityExceeded,
    /// A group names itself among its parents.
    GroupCycle,
}

impl AudioError {
    /// A short description of the error.
    pub fn describe(&self) -> (r: &'static str)
        ensures
            true,
    {
        match self {
            AudioError::CommandQueueFull => "the command queue is full",
            AudioError::ResourceNotFound => "no such resource",
            AudioError::InvalidSequence => "the sequence is not valid",
            AudioError::CapacityExceeded => "the store is full",
            AudioError::GroupCycle => "a group may not contain itself",
        }
    }
}

} // verus!
