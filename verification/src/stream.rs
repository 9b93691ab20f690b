//! External audio streams: sources that push one frame per output frame
//! into a mixer track.

use vstd::prelude::*;

verus! {

use crate::frame::Frame;
use crate::ids::AudioStreamId;
use crate::mixer::{Mixer, MixerModel, TrackId, mixer_with_input};
use crate::table::{Table, has_key};

/// An audio stream source.  The control side feeds decoded frames into a
/// queue; the audio side drains one frame per cycle, emitting silence
/// when the queue has run dry.  The frames are fully resident: a host
/// that decodes on the fly pushes batches from its own thread and
/// replaces the stream as needed, keeping decoding off the audio path.
#[derive(Clone, Debug)]
pub struct AudioStream {
    /// The frames still to be played, oldest first.
    pub frames: Vec<Frame>,
    /// How many frames have been played already.
    pub consumed: usize,
}

/// The frame a stream emits this cycle.
pub open spec fn stream_peek_spec(s: AudioStream) -> Frame {
    if s.consumed < s.frames@.len() {
        s.frames@[s.consumed as int]
    } else {
        Frame { left: 0i64, right: 0i64 }
    }
}

/// The stream after emitting one frame.
pub open spec fn stream_next_spec(s: AudioStream) -> AudioStream {
    if s.consumed < s.frames@.len() {
        AudioStream { consumed: (s.consumed + 1) as usize, ..s }
    } else {
        s
    }
}

impl AudioStream {
    /// A stream over the given frames.
    pub fn new(frames: Vec<Frame>) -> (r: AudioStream)
        ensures
            r.frames == frames,
            r.consumed == 0,
    {
        AudioStream { frames, consumed: 0 }
    }

    /// Emit the next frame, or silence once the queue has run dry.
    pub fn next(&mut self) -> (r: Frame)
        ensures
            r == stream_peek_spec(*old(self)),
            *final(self) == stream_next_spec(*old(self)),
    {
        if self.consumed < self.frames.len() {
            let f = self.frames[self.consumed];
            self.consumed = self.consumed + 1;
            f
        } else {
            Frame::zero()
        }
    }
}

/// A stream bound to its destination track.
#[derive(Clone, Debug)]
pub struct StreamEntry {
    pub track: TrackId,
    pub stream: AudioStream,
}

/// The store of streams on the audio side.
pub struct Streams {
    table: Table<StreamEntry>,
}

/// All streams advanced by one frame.
pub open spec fn streams_stepped(entries: Seq<(u64, StreamEntry)>) -> Seq<(u64, StreamEntry)> {
    entries.map_values(
        |p: (u64, StreamEntry)| (
            p.0,
            StreamEntry { track: p.1.track, stream: stream_next_spec(p.1.stream) },
        ),
    )
}

/// The mixer after every stream, in insertion order, pushed this cycle's
/// frame into its track.
pub open spec fn streams_mix(entries: Seq<(u64, StreamEntry)>, m: MixerModel, n: int) -> MixerModel
    decreases n,
{
    if n <= 0 {
        m
    } else {
        mixer_with_input(
            streams_mix(entries, m, n - 1),
            entries[n - 1].1.track,
            stream_peek_spec(entries[n - 1].1.stream),
        )
    }
}

impl Streams {
    /// The streams by id, in insertion order.
    pub closed spec fn view(&self) -> Seq<(u64, StreamEntry)> {
        self.table.view()
    }

    /// The store's fixed capacity.
    pub closed spec fn spec_cap(&self) -> int {
        self.table.spec_cap()
    }

    /// The underlying table invariant.
    pub closed spec fn wf(&self) -> bool {
        self.table.wf()
    }

    /// An empty store with room for `cap` streams.
    pub fn new(cap: usize) -> (r: Streams)
        ensures
            r.view() == Seq::<(u64, StreamEntry)>::empty(),
            r.spec_cap() == cap,
            r.wf(),
    {
        Streams { table: Table::new(cap) }
    }

    /// Add a stream; rejected when the id is taken or the store is full.
    pub fn add(&mut self, id: AudioStreamId, track: TrackId, stream: AudioStream) -> (r: bool)
        requires
            old(self).wf(),
        ensures
            final(self).wf(),
            final(self).spec_cap() == old(self).spec_cap(),
            r == (!has_key(old(self).view(), id.index) && old(self).view().len() < old(
                self,
            ).spec_cap()),
            r ==> final(self).view() == old(self).view().push(
                (id.index, StreamEntry { track, stream }),
            ),
            !r ==> final(self).view() == old(self).view(),
    {
        if self.table.contains(id.index) {
            return false;
        }
        if self.table.len() >= self.table.capacity() {
            return false;
        }
        self.table.push(id.index, StreamEntry { track, stream });
        true
    }

    /// Remove a stream, handing it back for unloading; ignored when the
    /// id is unknown.
    pub fn remove(&mut self, id: AudioStreamId) -> (r: Option<StreamEntry>)
        requires
            old(self).wf(),
        ensures
            final(self).wf(),
            final(self).spec_cap() == old(self).spec_cap(),
            match crate::table::key_idx(old(self).view(), id.index) {
                Some(i) => r == Some(old(self).view()[i].1) && final(self).view() == old(
                    self,
                ).view().remove(i),
                None => r is None && final(self).view() == old(self).view(),
            },
    {
        match self.table.idx_of(id.index) {
            Some(i) => {
                proof {
                    crate::table::lemma_key_idx_unique(self.view(), id.index, i as int);
                }
                let (_, e) = self.table.remove_at(i);
                Some(e)
            },
            None => None,
        }
    }

    /// One cycle: every stream pushes its frame into its track, in
    /// insertion order, and advances.
    pub fn process(&mut self, mixer: &mut Mixer)
        requires
            old(self).wf(),
            old(mixer).wf(),
        ensures
            final(self).wf(),
            final(mixer).wf(),
            final(self).spec_cap() == old(self).spec_cap(),
            final(self).view() == streams_stepped(old(self).view()),
            final(mixer)@ == streams_mix(old(self).view(), old(mixer)@, old(self).view().len() as int),
            final(mixer).sub_tracks.spec_cap() == old(mixer).sub_tracks.spec_cap(),
    {
        let n = self.table.len();
        let mut i: usize = 0;
        while i < n
            invariant
                i <= n,
                n == self.view().len(),
                self.view().len() == old(self).view().len(),
                self.spec_cap() == old(self).spec_cap(),
                self.wf(),
                mixer.wf(),
                mixer.sub_tracks.spec_cap() == old(mixer).sub_tracks.spec_cap(),
                forall|j: int|
                    i <= j < n ==> #[trigger] self.view()[j] == old(self).view()[j],
                forall|j: int|
                    0 <= j < i ==> #[trigger] self.view()[j] == streams_stepped(
                        old(self).view(),
                    )[j],
                mixer@ == streams_mix(old(self).view(), old(mixer)@, i as int),
            decreases n - i,
        {
            let entry = self.table.value_at_mut(i);
            let track = entry.track;
            let f = entry.stream.next();
            mixer.add_input(track, f);
            i = i + 1;
        }
        proof {
            assert(self.view() =~= streams_stepped(old(self).view()));
        }
    }
}

} // verus!
