//! Anything an instance can play: a sound or an arrangement, and the
//! audio-side store of both.

use vstd::prelude::*;

verus! {

use crate::arrangement::{Arrangement, ArrangementId, arrangement_frame_at_spec};
use crate::frame::Frame;
use crate::group::{Groups, set_reaches};
use crate::ids::GroupId;
use crate::mixer::TrackId;
use crate::sound::{Sound, SoundId, sound_frame_at_spec};
use crate::table::{Table, has_key, key_idx, lemma_key_idx_unique};

/// A reference to something playable, carrying its metadata.
#[derive(Clone, Copy, Debug)]
pub enum Playable {
    /// A sound.
    Sound(SoundId),
    /// An arrangement.
    Arrangement(ArrangementId),
}

/// Whether two playable references name the same resource.
pub open spec fn playable_same_spec(a: Playable, b: Playable) -> bool {
    match (a, b) {
        (Playable::Sound(x), Playable::Sound(y)) => x.index == y.index,
        (Playable::Arrangement(x), Playable::Arrangement(y)) => x.index == y.index,
        _ => false,
    }
}

impl Playable {
    /// The duration in fixed-point output frames.
    pub open spec fn spec_duration(self) -> i64 {
        match self {
            Playable::Sound(id) => id.duration,
            Playable::Arrangement(id) => id.duration,
        }
    }

    /// The duration in fixed-point output frames.
    pub fn duration(&self) -> (r: i64)
        ensures
            r == self.spec_duration(),
    {
        match self {
            Playable::Sound(id) => id.duration,
            Playable::Arrangement(id) => id.duration,
        }
    }

    /// The default track for instances.
    pub open spec fn spec_default_track(self) -> TrackId {
        match self {
            Playable::Sound(id) => id.default_track,
            Playable::Arrangement(id) => id.default_track,
        }
    }

    /// The default track for instances.
    pub fn default_track(&self) -> (r: TrackId)
        ensures
            r == self.spec_default_track(),
    {
        match self {
            Playable::Sound(id) => id.default_track,
            Playable::Arrangement(id) => id.default_track,
        }
    }

    /// The default loop start point, if any.
    pub open spec fn spec_default_loop_start(self) -> Option<i64> {
        match self {
            Playable::Sound(id) => id.default_loop_start,
            Playable::Arrangement(id) => id.default_loop_start,
        }
    }

    /// The default loop start point, if any.
    pub fn default_loop_start(&self) -> (r: Option<i64>)
        ensures
            r == self.spec_default_loop_start(),
    {
        match self {
            Playable::Sound(id) => id.default_loop_start,
            Playable::Arrangement(id) => id.default_loop_start,
        }
    }

    /// Whether this names the same resource as `other`.
    pub fn same(&self, other: &Playable) -> (r: bool)
        ensures
            r == playable_same_spec(*self, *other),
    {
        match (self, other) {
            (Playable::Sound(x), Playable::Sound(y)) => x.index == y.index,
            (Playable::Arrangement(x), Playable::Arrangement(y)) => x.index == y.index,
            _ => false,
        }
    }
}

/// The audio-side store of sounds and arrangements.
pub struct Playables {
    /// Sounds by id index.
    pub sounds: Table<Sound>,
    /// Arrangements by id index.
    pub arrangements: Table<Arrangement>,
    /// The device sample rate in Hz.
    pub device_rate: u32,
}

/// The frame a playable yields at a position, reading the stores.
pub open spec fn playable_frame_at_spec(ps: Playables, p: Playable, pos: int) -> Frame {
    match p {
        Playable::Sound(id) => match key_idx(ps.sounds.view(), id.index) {
            Some(i) => sound_frame_at_spec(ps.sounds.view()[i].1, pos, ps.device_rate),
            None => Frame { left: 0i64, right: 0i64 },
        },
        Playable::Arrangement(id) => match key_idx(ps.arrangements.view(), id.index) {
            Some(i) => arrangement_frame_at_spec(
                ps.arrangements.view()[i].1,
                ps.sounds.view(),
                pos,
                ps.device_rate,
            ),
            None => Frame { left: 0i64, right: 0i64 },
        },
    }
}

/// The group set of a playable, read from the stores; empty when missing.
pub open spec fn playable_groups_spec(ps: Playables, p: Playable) -> Seq<GroupId> {
    match p {
        Playable::Sound(id) => match key_idx(ps.sounds.view(), id.index) {
            Some(i) => ps.sounds.view()[i].1.settings.groups@,
            None => Seq::empty(),
        },
        Playable::Arrangement(id) => match key_idx(ps.arrangements.view(), id.index) {
            Some(i) => ps.arrangements.view()[i].1.settings.groups@,
            None => Seq::empty(),
        },
    }
}

/// Whether a playable is cooling down, read from the stores.
pub open spec fn playable_cooling_spec(ps: Playables, p: Playable) -> bool {
    match p {
        Playable::Sound(id) => match key_idx(ps.sounds.view(), id.index) {
            Some(i) => ps.sounds.view()[i].1.cooldown_timer > 0,
            None => false,
        },
        Playable::Arrangement(id) => match key_idx(ps.arrangements.view(), id.index) {
            Some(i) => ps.arrangements.view()[i].1.cooldown_timer > 0,
            None => false,
        },
    }
}

/// How the stores change when a playable's cooldown is armed: that
/// playable's timer is reloaded from its settings, everything else stays.
pub open spec fn cooldown_started_rel(o: Playables, f: Playables, p: Playable) -> bool {
    f.device_rate == o.device_rate && match p {
        Playable::Sound(id) => f.arrangements.view() == o.arrangements.view() && match key_idx(
            o.sounds.view(),
            id.index,
        ) {
            Some(i) => f.sounds.view() == o.sounds.view().update(
                i,
                (
                    id.index,
                    Sound {
                        cooldown_timer: match o.sounds.view()[i].1.settings.cooldown {
                            Some(c) => c,
                            None => o.sounds.view()[i].1.cooldown_timer,
                        },
                        ..o.sounds.view()[i].1
                    },
                ),
            ),
            None => f.sounds.view() == o.sounds.view(),
        },
        Playable::Arrangement(id) => f.sounds.view() == o.sounds.view() && match key_idx(
            o.arrangements.view(),
            id.index,
        ) {
            Some(i) => f.arrangements.view() == o.arrangements.view().update(
                i,
                (
                    id.index,
                    Arrangement {
                        cooldown_timer: match o.arrangements.view()[i].1.settings.cooldown {
                            Some(c) => c,
                            None => o.arrangements.view()[i].1.cooldown_timer,
                        },
                        ..o.arrangements.view()[i].1
                    },
                ),
            ),
            None => f.arrangements.view() == o.arrangements.view(),
        },
    }
}

impl Playables {
    /// Tables consistent, every sound well-formed, device rate positive.
    pub open spec fn wf(&self) -> bool {
        &&& self.sounds.wf()
        &&& self.arrangements.wf()
        &&& self.device_rate >= 1
        &&& forall|i: int|
            0 <= i < self.sounds.view().len() ==> (#[trigger] self.sounds.view()[i].1).wf()
    }

    /// Empty stores with the given capacities at the device rate.
    pub fn new(num_sounds: usize, num_arrangements: usize, device_rate: u32) -> (r: Playables)
        requires
            device_rate >= 1,
        ensures
            r.wf(),
            r.sounds.view() == Seq::<(u64, Sound)>::empty(),
            r.arrangements.view() == Seq::<(u64, Arrangement)>::empty(),
            r.sounds.spec_cap() == num_sounds,
            r.arrangements.spec_cap() == num_arrangements,
            r.device_rate == device_rate,
    {
        Playables {
            sounds: Table::new(num_sounds),
            arrangements: Table::new(num_arrangements),
            device_rate,
        }
    }

    /// Add a sound; rejected when the id is taken or the store is full.
    pub fn add_sound(&mut self, id: SoundId, sound: Sound) -> (r: bool)
        requires
            old(self).wf(),
            sound.wf(),
        ensures
            final(self).wf(),
            r == (!has_key(old(self).sounds.view(), id.index) && old(self).sounds.view().len()
                < old(self).sounds.spec_cap()),
            r ==> final(self).sounds.view() == old(self).sounds.view().push((id.index, sound)),
            !r ==> final(self).sounds.view() == old(self).sounds.view(),
            final(self).arrangements.view() == old(self).arrangements.view(),
            final(self).device_rate == old(self).device_rate,
            final(self).sounds.spec_cap() == old(self).sounds.spec_cap(),
            final(self).arrangements.spec_cap() == old(self).arrangements.spec_cap(),
    {
        if self.sounds.contains(id.index) {
            return false;
        }
        if self.sounds.len() >= self.sounds.capacity() {
            return false;
        }
        self.sounds.push(id.index, sound);
        true
    }

    /// Remove a sound, handing it back for unloading off the audio thread.
    pub fn remove_sound(&mut self, index: u64) -> (r: Option<Sound>)
        requires
            old(self).wf(),
        ensures
            final(self).wf(),
            final(self).arrangements.view() == old(self).arrangements.view(),
            final(self).device_rate == old(self).device_rate,
            final(self).sounds.spec_cap() == old(self).sounds.spec_cap(),
            final(self).arrangements.spec_cap() == old(self).arrangements.spec_cap(),
            match key_idx(old(self).sounds.view(), index) {
                Some(i) => r == Some(old(self).sounds.view()[i].1) && final(self).sounds.view()
                    == old(self).sounds.view().remove(i),
                None => r is None && final(self).sounds.view() == old(self).sounds.view(),
            },
    {
        match self.sounds.idx_of(index) {
            Some(i) => {
                proof {
                    lemma_key_idx_unique(self.sounds.view(), index, i as int);
                }
                let (_, s) = self.sounds.remove_at(i);
                Some(s)
            },
            None => None,
        }
    }

    /// Add an arrangement; rejected when the id is taken or the store is
    /// full.
    pub fn add_arrangement(&mut self, id: ArrangementId, arrangement: Arrangement) -> (r: bool)
        requires
            old(self).wf(),
        ensures
            final(self).wf(),
            r == (!has_key(old(self).arrangements.view(), id.index) && old(self).arrangements.view().len() < old(self).arrangements.spec_cap()),
            r ==> final(self).arrangements.view() == old(self).arrangements.view().push(
                (id.index, arrangement),
            ),
            !r ==> final(self).arrangements.view() == old(self).arrangements.view(),
            final(self).sounds.view() == old(self).sounds.view(),
            final(self).device_rate == old(self).device_rate,
            final(self).sounds.spec_cap() == old(self).sounds.spec_cap(),
            final(self).arrangements.spec_cap() == old(self).arrangements.spec_cap(),
    {
        if self.arrangements.contains(id.index) {
            return false;
        }
        if self.arrangements.len() >= self.arrangements.capacity() {
            return false;
        }
        self.arrangements.push(id.index, arrangement);
        true
    }

    /// Remove an arrangement, handing it back for unloading.
    pub fn remove_arrangement(&mut self, index: u64) -> (r: Option<Arrangement>)
        requires
            old(self).wf(),
        ensures
            final(self).wf(),
            final(self).sounds.view() == old(self).sounds.view(),
            final(self).device_rate == old(self).device_rate,
            final(self).sounds.spec_cap() == old(self).sounds.spec_cap(),
            final(self).arrangements.spec_cap() == old(self).arrangements.spec_cap(),
            match key_idx(old(self).arrangements.view(), index) {
                Some(i) => r == Some(old(self).arrangements.view()[i].1) && final(self).arrangements.view() == old(self).arrangements.view().remove(i),
                None => r is None && final(self).arrangements.view() == old(self).arrangements.view(),
            },
    {
        match self.arrangements.idx_of(index) {
            Some(i) => {
                proof {
                    lemma_key_idx_unique(self.arrangements.view(), index, i as int);
                }
                let (_, a) = self.arrangements.remove_at(i);
                Some(a)
            },
            None => None,
        }
    }

    /// The frame `p` yields at position `pos`; silence when the resource
    /// has been removed.
    pub fn frame_at(&self, p: Playable, pos: i64) -> (r: Frame)
        requires
            self.wf(),
        ensures
            r == playable_frame_at_spec(*self, p, pos as int),
    {
        match p {
            Playable::Sound(id) => {
                match self.sounds.get(id.index) {
                    Some(s) => s.frame_at(pos, self.device_rate),
                    None => Frame::zero(),
                }
            },
            Playable::Arrangement(id) => {
                match self.arrangements.get(id.index) {
                    Some(a) => a.frame_at(&self.sounds, pos, self.device_rate),
                    None => Frame::zero(),
                }
            },
        }
    }

    /// Whether the playable must wait before starting a new instance.
    pub fn cooling_down(&self, p: Playable) -> (r: bool)
        requires
            self.wf(),
        ensures
            r == playable_cooling_spec(*self, p),
    {
        match p {
            Playable::Sound(id) => {
                match self.sounds.get(id.index) {
                    Some(s) => s.cooling_down(),
                    None => false,
                }
            },
            Playable::Arrangement(id) => {
                match self.arrangements.get(id.index) {
                    Some(a) => a.cooling_down(),
                    None => false,
                }
            },
        }
    }

    /// Whether the playable exists in the stores.
    pub fn exists_in_store(&self, p: Playable) -> (r: bool)
        requires
            self.wf(),
        ensures
            r == match p {
                Playable::Sound(id) => has_key(self.sounds.view(), id.index),
                Playable::Arrangement(id) => has_key(self.arrangements.view(), id.index),
            },
    {
        match p {
            Playable::Sound(id) => self.sounds.contains(id.index),
            Playable::Arrangement(id) => self.arrangements.contains(id.index),
        }
    }

    /// Arm the playable's cooldown timer.
    pub fn start_cooldown(&mut self, p: Playable)
        requires
            old(self).wf(),
        ensures
            final(self).wf(),
            final(self).device_rate == old(self).device_rate,
            final(self).sounds.spec_cap() == old(self).sounds.spec_cap(),
            final(self).arrangements.spec_cap() == old(self).arrangements.spec_cap(),
            match p {
                Playable::Sound(id) => final(self).arrangements.view() == old(self).arrangements.view() && match key_idx(old(self).sounds.view(), id.index) {
                    Some(i) => final(self).sounds.view() == old(self).sounds.view().update(
                        i,
                        (
                            id.index,
                            Sound {
                                cooldown_timer: match old(self).sounds.view()[i].1.settings.cooldown {
                                    Some(c) => c,
                                    None => old(self).sounds.view()[i].1.cooldown_timer,
                                },
                                ..old(self).sounds.view()[i].1
                            },
                        ),
                    ),
                    None => final(self).sounds.view() == old(self).sounds.view(),
                },
                Playable::Arrangement(id) => final(self).sounds.view() == old(self).sounds.view()
                    && match key_idx(old(self).arrangements.view(), id.index) {
                    Some(i) => final(self).arrangements.view() == old(self).arrangements.view().update(
                        i,
                        (
                            id.index,
                            Arrangement {
                                cooldown_timer: match old(self).arrangements.view()[i].1.settings.cooldown {
                                    Some(c) => c,
                                    None => old(self).arrangements.view()[i].1.cooldown_timer,
                                },
                                ..old(self).arrangements.view()[i].1
                            },
                        ),
                    ),
                    None => final(self).arrangements.view() == old(self).arrangements.view(),
                },
            },
    {
        match p {
            Playable::Sound(id) => {
                match self.sounds.idx_of(id.index) {
                    Some(i) => {
                        proof {
                            lemma_key_idx_unique(self.sounds.view(), id.index, i as int);
                        }
                        let s = self.sounds.value_at_mut(i);
                        s.start_cooldown();
                    },
                    None => {},
                }
            },
            Playable::Arrangement(id) => {
                match self.arrangements.idx_of(id.index) {
                    Some(i) => {
                        proof {
                            lemma_key_idx_unique(self.arrangements.view(), id.index, i as int);
                        }
                        let a = self.arrangements.value_at_mut(i);
                        a.start_cooldown();
                    },
                    None => {},
                }
            },
        }
    }

    /// One output frame passes on every cooldown timer.
    pub fn update_cooldowns(&mut self)
        requires
            old(self).wf(),
        ensures
            final(self).wf(),
            final(self).device_rate == old(self).device_rate,
            final(self).sounds.spec_cap() == old(self).sounds.spec_cap(),
            final(self).arrangements.spec_cap() == old(self).arrangements.spec_cap(),
            final(self).sounds.view().len() == old(self).sounds.view().len(),
            final(self).arrangements.view().len() == old(self).arrangements.view().len(),
            forall|i: int|
                0 <= i < old(self).sounds.view().len() ==> #[trigger] final(self).sounds.view()[i]
                    == (
                old(self).sounds.view()[i].0,
                Sound {
                    cooldown_timer: crate::fx::sat_u64(
                        old(self).sounds.view()[i].1.cooldown_timer - 1,
                    ) as u64,
                    ..old(self).sounds.view()[i].1
                },
                ),
            forall|i: int|
                0 <= i < old(self).arrangements.view().len() ==> #[trigger] final(self).arrangements.view()[i] == (
                old(self).arrangements.view()[i].0,
                Arrangement {
                    cooldown_timer: crate::fx::sat_u64(
                        old(self).arrangements.view()[i].1.cooldown_timer - 1,
                    ) as u64,
                    ..old(self).arrangements.view()[i].1
                },
                ),
    {
        let ns = self.sounds.len();
        let mut i: usize = 0;
        while i < ns
            invariant
                i <= ns,
                ns == self.sounds.view().len(),
                self.sounds.view().len() == old(self).sounds.view().len(),
                self.sounds.spec_cap() == old(self).sounds.spec_cap(),
                self.sounds.wf(),
                self.arrangements == old(self).arrangements,
                self.device_rate == old(self).device_rate,
                forall|j: int|
                    0 <= j < i ==> #[trigger] self.sounds.view()[j] == (
                    old(self).sounds.view()[j].0,
                    Sound {
                        cooldown_timer: crate::fx::sat_u64(
                            old(self).sounds.view()[j].1.cooldown_timer - 1,
                        ) as u64,
                        ..old(self).sounds.view()[j].1
                    },
                    ),
                forall|j: int|
                    i <= j < ns ==> #[trigger] self.sounds.view()[j] == old(self).sounds.view()[j],
                forall|j: int|
                    0 <= j < ns ==> (#[trigger] self.sounds.view()[j].1).wf(),
            decreases ns - i,
        {
            let s = self.sounds.value_at_mut(i);
            s.update_cooldown();
            i = i + 1;
        }
        let na = self.arrangements.len();
        let mut k: usize = 0;
        while k < na
            invariant
                k <= na,
                na == self.arrangements.view().len(),
                self.arrangements.view().len() == old(self).arrangements.view().len(),
                self.arrangements.spec_cap() == old(self).arrangements.spec_cap(),
                self.arrangements.wf(),
                self.device_rate == old(self).device_rate,
                self.sounds.wf(),
                self.sounds.spec_cap() == old(self).sounds.spec_cap(),
                self.sounds.view().len() == old(self).sounds.view().len(),
                forall|j: int|
                    0 <= j < self.sounds.view().len() ==> (#[trigger] self.sounds.view()[j].1).wf(),
                forall|j: int|
                    0 <= j < self.sounds.view().len() ==> #[trigger] self.sounds.view()[j] == (
                    old(self).sounds.view()[j].0,
                    Sound {
                        cooldown_timer: crate::fx::sat_u64(
                            old(self).sounds.view()[j].1.cooldown_timer - 1,
                        ) as u64,
                        ..old(self).sounds.view()[j].1
                    },
                    ),
                forall|j: int|
                    0 <= j < k ==> #[trigger] self.arrangements.view()[j] == (
                    old(self).arrangements.view()[j].0,
                    Arrangement {
                        cooldown_timer: crate::fx::sat_u64(
                            old(self).arrangements.view()[j].1.cooldown_timer - 1,
                        ) as u64,
                        ..old(self).arrangements.view()[j].1
                    },
                    ),
                forall|j: int|
                    k <= j < na ==> #[trigger] self.arrangements.view()[j] == old(self).arrangements.view()[j],
            decreases na - k,
        {
            let a = self.arrangements.value_at_mut(k);
            a.update_cooldown();
            k = k + 1;
        }
    }

    /// Whether the playable's group set has `target` as an ancestor.
    pub fn is_in_group(&self, p: Playable, target: GroupId, groups: &Groups) -> (r: bool)
        requires
            self.wf(),
            groups.wf(),
        ensures
            r == set_reaches(
                groups.view(),
                playable_groups_spec(*self, p),
                target.index,
                groups.view().len() as nat,
            ),
    {
        match p {
            Playable::Sound(id) => {
                match self.sounds.get(id.index) {
                    Some(s) => groups.set_has_ancestor(&s.settings.groups, target),
                    None => {
                        let empty: Vec<GroupId> = Vec::new();
                        proof {
                            assert(empty@ =~= Seq::<GroupId>::empty());
                        }
                        groups.set_has_ancestor(&empty, target)
                    },
                }
            },
            Playable::Arrangement(id) => {
                match self.arrangements.get(id.index) {
                    Some(a) => groups.set_has_ancestor(&a.settings.groups, target),
                    None => {
                        let empty: Vec<GroupId> = Vec::new();
                        proof {
                            assert(empty@ =~= Seq::<GroupId>::empty());
                        }
                        groups.set_has_ancestor(&empty, target)
                    },
                }
            },
        }
    }
}

} // verus!
