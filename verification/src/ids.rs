//! Identifiers for the engine's long-lived entities.
//!
//! Every id wraps a process-unique integer minted by the control side from a
//! monotonically increasing counter ([`IdSource`]); equality and hashing are
//! on the integer alone.

use vstd::prelude::*;

verus! {

/// Where the audio side's id range begins: the control side mints ids
/// below this bound, the audio side (rebinding a looping sequence's
/// slots) at or above it, so the two ranges never collide.  A program
/// minting one control id per nanosecond would take centuries to reach
/// the bound.
pub const AUDIO_ID_BASE: u64 = 0x8000_0000_0000_0000;

/// A monotonically increasing counter handing out fresh id indices.
#[derive(Clone, Copy, Debug, PartialEq, Eq, Structural)]
pub struct IdSource {
    pub next: u64,
}

impl IdSource {
    /// A counter starting at zero.
    pub fn new() -> (r: IdSource)
        ensures
            r.next == 0,
    {
        IdSource { next: 0 }
    }

    /// A counter starting at `from`.
    pub fn starting_at(from: u64) -> (r: IdSource)
        ensures
            r.next == from,
    {
        IdSource { next: from }
    }

    /// Hand out the next index.  The counter sticks at its maximum,
    /// which a program minting one id per nanosecond would reach after
    /// five centuries.
    pub fn mint(&mut self) -> (r: u64)
        ensures
            r == old(self).next,
            final(self).next == crate::fx::sat_u64(old(self).next + 1),
    {
        let r = self.next;
        if self.next < u64::MAX {
            self.next = self.next + 1;
        }
        r
    }
}

/// A unique identifier for an instance of a playable.
#[derive(Clone, Copy, Debug, PartialEq, Eq, Hash, Structural)]
pub struct InstanceId {
    pub index: u64,
}

impl InstanceId {
    /// Wrap a minted index.
    pub fn new(index: u64) -> (r: InstanceId)
        ensures
            r.index == index,
    {
        InstanceId { index }
    }
}

/// A unique identifier for a group.
#[derive(Clone, Copy, Debug, PartialEq, Eq, Hash, Structural)]
pub struct GroupId {
    pub index: u64,
}

impl GroupId {
    /// Wrap a minted index.
    pub fn new(index: u64) -> (r: GroupId)
        ensures
            r.index == index,
    {
        GroupId { index }
    }
}

/// A unique identifier for a mixer sub-track.
#[derive(Clone, Copy, Debug, PartialEq, Eq, Hash, Structural)]
pub struct SubTrackId {
    pub index: u64,
}

impl SubTrackId {
    /// Wrap a minted index.
    pub fn new(index: u64) -> (r: SubTrackId)
        ensures
            r.index == index,
    {
        SubTrackId { index }
    }
}

/// A unique identifier for a parameter.
#[derive(Clone, Copy, Debug, PartialEq, Eq, Hash, Structural)]
pub struct ParameterId {
    pub index: u64,
}

impl ParameterId {
    /// Wrap a minted index.
    pub fn new(index: u64) -> (r: ParameterId)
        ensures
            r.index == index,
    {
        ParameterId { index }
    }
}

/// A unique identifier for a metronome.
#[derive(Clone, Copy, Debug, PartialEq, Eq, Hash, Structural)]
pub struct MetronomeId {
    pub index: u64,
}

impl MetronomeId {
    /// Wrap a minted index.
    pub fn new(index: u64) -> (r: MetronomeId)
        ensures
            r.index == index,
    {
        MetronomeId { index }
    }
}

/// A unique identifier for a running sequence.
#[derive(Clone, Copy, Debug, PartialEq, Eq, Hash, Structural)]
pub struct SequenceInstanceId {
    pub index: u64,
}

impl SequenceInstanceId {
    /// Wrap a minted index.
    pub fn new(index: u64) -> (r: SequenceInstanceId)
        ensures
            r.index == index,
    {
        SequenceInstanceId { index }
    }
}

/// A unique identifier for an effect on a mixer track.
#[derive(Clone, Copy, Debug, PartialEq, Eq, Hash, Structural)]
pub struct EffectId {
    pub index: u64,
}

impl EffectId {
    /// Wrap a minted index.
    pub fn new(index: u64) -> (r: EffectId)
        ensures
            r.index == index,
    {
        EffectId { index }
    }
}

/// A unique identifier for an external audio stream.
#[derive(Clone, Copy, Debug, PartialEq, Eq, Hash, Structural)]
pub struct AudioStreamId {
    pub index: u64,
}

impl AudioStreamId {
    /// Wrap a minted index.
    pub fn new(index: u64) -> (r: AudioStreamId)
        ensures
            r.index == index,
    {
        AudioStreamId { index }
    }
}

} // verus!
