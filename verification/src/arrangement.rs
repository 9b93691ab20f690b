//! Arrangements: timeline compositions of sound clips.

use vstd::prelude::*;

verus! {

use crate::fx::{FX_ONE, FX_ONE_U, sat_i64, sat_u64, sat_sub_u64, sat_add_i64, mul_div_i128};
use crate::frame::{Frame, frame_add_spec};
use crate::mixer::TrackId;
use crate::sound::{Sound, SoundId, PlayableSettings, sound_frame_at_spec};
use crate::table::{Table, key_idx};

/// A placement of (a sub-range of) a sound on an arrangement's timeline.
/// Times are fixed-point output frames; `rate` is a fixed-point playback
/// factor, negative for reverse.
#[derive(Clone, Copy, Debug)]
pub struct SoundClip {
    /// The sound played by this clip.
    pub sound_id: SoundId,
    /// Where on the arrangement timeline the clip starts.
    pub clip_start: i64,
    /// Where on the arrangement timeline the clip ends.
    pub clip_end: i64,
    /// The position in the sound heard at `clip_start`.
    pub sound_start: i64,
    /// An optional trim: positions in the sound beyond it are silent.
    pub sound_end: Option<i64>,
    /// How fast the sound advances per timeline frame.
    pub rate: i64,
}

impl SoundClip {
    /// A clip playing `sound_id` in full, at full rate, from `clip_start`.
    pub fn new(sound_id: SoundId, clip_start: i64) -> (r: SoundClip)
        ensures
            r == (SoundClip {
                sound_id,
                clip_start,
                clip_end: sat_i64(clip_start + sound_id.duration) as i64,
                sound_start: 0i64,
                sound_end: None::<i64>,
                rate: FX_ONE,
            }),
    {
        SoundClip {
            sound_id,
            clip_start,
            clip_end: sat_add_i64(clip_start, sound_id.duration),
            sound_start: 0,
            sound_end: None,
            rate: FX_ONE,
        }
    }

    /// The same clip cut off `duration` frames after its start.
    pub fn trim(self, duration: i64) -> (r: SoundClip)
        ensures
            r == (SoundClip {
                clip_end: sat_i64(self.clip_start + duration) as i64,
                ..self
            }),
    {
        SoundClip { clip_end: sat_add_i64(self.clip_start, duration), ..self }
    }
}

/// The position in the clip's sound heard at timeline position `p`.
pub open spec fn clip_sound_pos(c: SoundClip, p: int) -> int {
    sat_i64(c.sound_start + ((p - c.clip_start) * c.rate) / (FX_ONE as int))
}

/// The clip's contribution at timeline position `p`: its sound sampled at
/// the mapped position while `p` is inside the clip range and the mapped
/// position inside any trim window, silence otherwise.
pub open spec fn clip_frame_at_spec(
    c: SoundClip,
    sounds: Seq<(u64, Sound)>,
    p: int,
    device_rate: u32,
) -> Frame {
    if c.clip_start <= p < c.clip_end {
        match key_idx(sounds, c.sound_id.index) {
            Some(i) => {
                let sp = clip_sound_pos(c, p);
                let inside = match c.sound_end {
                    Some(e) => if c.sound_start <= e {
                        c.sound_start <= sp <= e
                    } else {
                        e <= sp <= c.sound_start
                    },
                    None => true,
                };
                if inside {
                    sound_frame_at_spec(sounds[i].1, sp, device_rate)
                } else {
                    Frame { left: 0i64, right: 0i64 }
                }
            },
            None => Frame { left: 0i64, right: 0i64 },
        }
    } else {
        Frame { left: 0i64, right: 0i64 }
    }
}

impl SoundClip {
    /// This clip's contribution at timeline position `p`.
    pub fn frame_at(&self, sounds: &Table<Sound>, p: i64, device_rate: u32) -> (r: Frame)
        requires
            sounds.wf(),
            device_rate >= 1,
            forall|i: int| 0 <= i < sounds.view().len() ==> (#[trigger] sounds.view()[i].1).wf(),
        ensures
            r == clip_frame_at_spec(*self, sounds.view(), p as int, device_rate),
    {
        if !(self.clip_start <= p && p < self.clip_end) {
            return Frame::zero();
        }
        match sounds.get(self.sound_id.index) {
            Some(sound) => {
                let rel: i128 = (p as i128) - (self.clip_start as i128);
                let scaled = mul_div_i128(rel, self.rate as i128, FX_ONE_U);
                let sp: i64 = match (self.sound_start as i128).checked_add(scaled) {
                    Some(wide) => {
                        if wide > i64::MAX as i128 {
                            i64::MAX
                        } else if wide < i64::MIN as i128 {
                            i64::MIN
                        } else {
                            wide as i64
                        }
                    },
                    None => {
                        if scaled > 0 {
                            i64::MAX
                        } else {
                            i64::MIN
                        }
                    },
                };
                let inside = match self.sound_end {
                    Some(e) => if self.sound_start <= e {
                        self.sound_start <= sp && sp <= e
                    } else {
                        e <= sp && sp <= self.sound_start
                    },
                    None => true,
                };
                if inside {
                    sound.frame_at(sp, device_rate)
                } else {
                    Frame::zero()
                }
            },
            None => Frame::zero(),
        }
    }
}

/// An arrangement: clips on a shared timeline, with the same settings
/// envelope as a sound.
pub struct Arrangement {
    /// The clips, in the order they were added.
    pub clips: Vec<SoundClip>,
    /// The end of the last clip, in fixed-point output frames.
    pub duration: i64,
    /// Shared playable settings.
    pub settings: PlayableSettings,
    /// Output frames left until a new instance may start.
    pub cooldown_timer: u64,
}

/// The sum of the first `n` clips' contributions at position `p`.
pub open spec fn clips_frame_sum(
    clips: Seq<SoundClip>,
    sounds: Seq<(u64, Sound)>,
    p: int,
    device_rate: u32,
    n: int,
) -> Frame
    decreases n,
{
    if n <= 0 {
        Frame { left: 0i64, right: 0i64 }
    } else {
        frame_add_spec(
            clips_frame_sum(clips, sounds, p, device_rate, n - 1),
            clip_frame_at_spec(clips[n - 1], sounds, p, device_rate),
        )
    }
}

/// The arrangement's frame at position `p`: every clip's contribution
/// summed in insertion order.
pub open spec fn arrangement_frame_at_spec(
    a: Arrangement,
    sounds: Seq<(u64, Sound)>,
    p: int,
    device_rate: u32,
) -> Frame {
    clips_frame_sum(a.clips@, sounds, p, device_rate, a.clips@.len() as int)
}

impl Arrangement {
    /// An empty arrangement with the given settings.
    pub fn new(settings: PlayableSettings) -> (r: Arrangement)
        ensures
            r.clips@ == Seq::<SoundClip>::empty(),
            r.duration == 0,
            r.settings == settings,
            r.cooldown_timer == 0,
    {
        let r = Arrangement { clips: Vec::new(), duration: 0, settings, cooldown_timer: 0 };
        proof {
            assert(r.clips@ =~= Seq::<SoundClip>::empty());
        }
        r
    }

    /// Add a clip; the duration grows to cover it.
    pub fn add_clip(&mut self, clip: SoundClip)
        ensures
            final(self).clips@ == old(self).clips@.push(clip),
            final(self).duration == if clip.clip_end > old(self).duration {
                clip.clip_end
            } else {
                old(self).duration
            },
            final(self).settings == old(self).settings,
            final(self).cooldown_timer == old(self).cooldown_timer,
    {
        if clip.clip_end > self.duration {
            self.duration = clip.clip_end;
        }
        self.clips.push(clip);
    }

    /// An arrangement that seamlessly loops `sound_id`: the sound placed
    /// once in full and once trimmed at the loop point, with the loop
    /// point as default loop start.  The musical length, when the sound
    /// has one, places the loop point.
    pub fn new_loop(sound_id: SoundId, settings: PlayableSettings) -> (r: Arrangement)
        ensures
            ({
                let lp = match sound_id.semantic_duration {
                    Some(d) => d,
                    None => sound_id.duration,
                };
                let full_end = sat_i64(0 + sound_id.duration) as i64;
                let trimmed_end = sat_i64(lp + lp) as i64;
                &&& r.clips@.len() == 2
                &&& r.clips@[0] == (SoundClip {
                    sound_id,
                    clip_start: 0i64,
                    clip_end: full_end,
                    sound_start: 0i64,
                    sound_end: None::<i64>,
                    rate: FX_ONE,
                })
                &&& r.clips@[1] == (SoundClip {
                    sound_id,
                    clip_start: lp,
                    clip_end: trimmed_end,
                    sound_start: 0i64,
                    sound_end: None::<i64>,
                    rate: FX_ONE,
                })
                &&& r.duration == {
                    let d1: i64 = if full_end > 0 {
                        full_end
                    } else {
                        0
                    };
                    if trimmed_end > d1 {
                        trimmed_end
                    } else {
                        d1
                    }
                }
                &&& r.settings.default_loop_start == Some(lp)
            }),
            r.settings.default_track == settings.default_track,
            r.settings.cooldown == settings.cooldown,
            r.settings.semantic_duration == settings.semantic_duration,
            r.settings.groups == settings.groups,
            r.cooldown_timer == 0,
    {
        let loop_point = match sound_id.semantic_duration {
            Some(d) => d,
            None => sound_id.duration,
        };
        let mut r = Arrangement::new(
            PlayableSettings {
                default_track: settings.default_track,
                cooldown: settings.cooldown,
                semantic_duration: settings.semantic_duration,
                default_loop_start: Some(loop_point),
                groups: settings.groups,
            },
        );
        r.add_clip(SoundClip::new(sound_id, 0));
        r.add_clip(SoundClip::new(sound_id, loop_point).trim(loop_point));
        r
    }

    /// An arrangement that plays an intro once, then seamlessly loops a
    /// second sound: the intro placed at the start, the loop placed at
    /// the intro's musical end both in full and trimmed at the loop
    /// point, with the default loop start behind the intro.  Musical
    /// lengths, where the sounds have them, place the clips.
    pub fn new_loop_with_intro(
        intro_id: SoundId,
        loop_id: SoundId,
        settings: PlayableSettings,
    ) -> (r: Arrangement)
        ensures
            ({
                let intro_d = match intro_id.semantic_duration {
                    Some(d) => d,
                    None => intro_id.duration,
                };
                let loop_d = match loop_id.semantic_duration {
                    Some(d) => d,
                    None => loop_id.duration,
                };
                let lp = sat_i64(intro_d + loop_d) as i64;
                let end0 = sat_i64(0 + intro_id.duration) as i64;
                let end1 = sat_i64(intro_d + loop_id.duration) as i64;
                let end2 = sat_i64(lp + loop_d) as i64;
                &&& r.clips@.len() == 3
                &&& r.clips@[0] == (SoundClip {
                    sound_id: intro_id,
                    clip_start: 0i64,
                    clip_end: end0,
                    sound_start: 0i64,
                    sound_end: None::<i64>,
                    rate: FX_ONE,
                })
                &&& r.clips@[1] == (SoundClip {
                    sound_id: loop_id,
                    clip_start: intro_d,
                    clip_end: end1,
                    sound_start: 0i64,
                    sound_end: None::<i64>,
                    rate: FX_ONE,
                })
                &&& r.clips@[2] == (SoundClip {
                    sound_id: loop_id,
                    clip_start: lp,
                    clip_end: end2,
                    sound_start: 0i64,
                    sound_end: None::<i64>,
                    rate: FX_ONE,
                })
                &&& r.duration == {
                    let d1: i64 = if end0 > 0 {
                        end0
                    } else {
                        0
                    };
                    let d2: i64 = if end1 > d1 {
                        end1
                    } else {
                        d1
                    };
                    if end2 > d2 {
                        end2
                    } else {
                        d2
                    }
                }
                &&& r.settings.default_loop_start == Some(lp)
            }),
            r.settings.default_track == settings.default_track,
            r.settings.cooldown == settings.cooldown,
            r.settings.semantic_duration == settings.semantic_duration,
            r.settings.groups == settings.groups,
            r.cooldown_timer == 0,
    {
        let intro_duration = match intro_id.semantic_duration {
            Some(d) => d,
            None => intro_id.duration,
        };
        let loop_duration = match loop_id.semantic_duration {
            Some(d) => d,
            None => loop_id.duration,
        };
        let loop_point = sat_add_i64(intro_duration, loop_duration);
        let mut r = Arrangement::new(
            PlayableSettings {
                default_track: settings.default_track,
                cooldown: settings.cooldown,
                semantic_duration: settings.semantic_duration,
                default_loop_start: Some(loop_point),
                groups: settings.groups,
            },
        );
        r.add_clip(SoundClip::new(intro_id, 0));
        r.add_clip(SoundClip::new(loop_id, intro_duration));
        r.add_clip(SoundClip::new(loop_id, loop_point).trim(loop_duration));
        r
    }

    /// The arrangement's frame at timeline position `p`.
    pub fn frame_at(&self, sounds: &Table<Sound>, p: i64, device_rate: u32) -> (r: Frame)
        requires
            sounds.wf(),
            device_rate >= 1,
            forall|i: int| 0 <= i < sounds.view().len() ==> (#[trigger] sounds.view()[i].1).wf(),
        ensures
            r == arrangement_frame_at_spec(*self, sounds.view(), p as int, device_rate),
    {
        let mut acc = Frame::zero();
        let n = self.clips.len();
        let mut i: usize = 0;
        while i < n
            invariant
                i <= n,
                n == self.clips@.len(),
                sounds.wf(),
                device_rate >= 1,
                forall|j: int|
                    0 <= j < sounds.view().len() ==> (#[trigger] sounds.view()[j].1).wf(),
                acc == clips_frame_sum(self.clips@, sounds.view(), p as int, device_rate, i as int),
            decreases n - i,
        {
            let part = self.clips[i].frame_at(sounds, p, device_rate);
            acc = acc.add(part);
            i = i + 1;
        }
        acc
    }

    /// Arm the cooldown timer, when a cooldown is configured.
    pub fn start_cooldown(&mut self)
        ensures
            *final(self) == (Arrangement {
                cooldown_timer: match old(self).settings.cooldown {
                    Some(c) => c,
                    None => old(self).cooldown_timer,
                },
                ..*old(self)
            }),
    {
        match self.settings.cooldown {
            Some(c) => {
                self.cooldown_timer = c;
            },
            None => {},
        }
    }

    /// One output frame passes on the cooldown timer.
    pub fn update_cooldown(&mut self)
        ensures
            *final(self) == (Arrangement {
                cooldown_timer: sat_u64(old(self).cooldown_timer - 1) as u64,
                ..*old(self)
            }),
    {
        self.cooldown_timer = sat_sub_u64(self.cooldown_timer, 1);
    }

    /// Whether a new instance must still wait.
    pub fn cooling_down(&self) -> (r: bool)
        ensures
            r == (self.cooldown_timer > 0),
    {
        self.cooldown_timer > 0
    }
}

/// An arrangement's identifier, carrying the metadata instances read every
/// frame; equality is on the index alone.
#[derive(Clone, Copy, Debug)]
pub struct ArrangementId {
    pub index: u64,
    pub duration: i64,
    pub default_track: TrackId,
    pub semantic_duration: Option<i64>,
    pub default_loop_start: Option<i64>,
}

impl ArrangementId {
    /// Mint an id for `arrangement` under the minted `index`.
    pub fn new(index: u64, arrangement: &Arrangement) -> (r: ArrangementId)
        ensures
            r.index == index,
            r.duration == arrangement.duration,
            r.default_track == arrangement.settings.default_track,
            r.semantic_duration == arrangement.settings.semantic_duration,
            r.default_loop_start == arrangement.settings.default_loop_start,
    {
        ArrangementId {
            index,
            duration: arrangement.duration,
            default_track: arrangement.settings.default_track,
            semantic_duration: arrangement.settings.semantic_duration,
            default_loop_start: arrangement.settings.default_loop_start,
        }
    }

    /// The duration in fixed-point output frames.
    pub fn duration(&self) -> (r: i64)
        ensures
            r == self.duration,
    {
        self.duration
    }

    /// The track instances of this arrangement play on by default.
    pub fn default_track(&self) -> (r: TrackId)
        ensures
            r == self.default_track,
    {
        self.default_track
    }

    /// The musical length, if any.
    pub fn semantic_duration(&self) -> (r: Option<i64>)
        ensures
            r == self.semantic_duration,
    {
        self.semantic_duration
    }

    /// The default loop start point, if any.
    pub fn default_loop_start(&self) -> (r: Option<i64>)
        ensures
            r == self.default_loop_start,
    {
        self.default_loop_start
    }
}

impl PartialEq for ArrangementId {
    /// Ids are equal when their indices are, whatever metadata they carry.
    fn eq(&self, other: &ArrangementId) -> (r: bool) {
        self.index == other.index
    }
}

impl vstd::std_specs::cmp::PartialEqSpecImpl for ArrangementId {
    open spec fn obeys_eq_spec() -> bool {
        true
    }

    open spec fn eq_spec(&self, other: &ArrangementId) -> bool {
        self.index == other.index
    }
}

} // verus!
