//! Sounds: immutable sequences of stereo frames with playback settings.

use vstd::prelude::*;

verus! {

use crate::fx::{FX_ONE, FX_ONE_U, sat_i64, sat_u64, sat_sub_u64, mul_div_u64, lerp_fx};
use crate::frame::Frame;
use crate::ids::GroupId;
use crate::mixer::TrackId;

/// The settings shared by every playable: routing, cooldown, musical
/// length, default loop point and group membership.  Times are in output
/// frames ([`crate::fx::FX_ONE`] per frame where fractional).
#[derive(Clone, Debug)]
pub struct PlayableSettings {
    /// The track instances play on unless overridden.
    pub default_track: TrackId,
    /// How many output frames must pass between two starts, if any.
    pub cooldown: Option<u64>,
    /// The musical length in fixed-point output frames, if any.
    pub semantic_duration: Option<i64>,
    /// Where instances loop back to by default, if anywhere.
    pub default_loop_start: Option<i64>,
    /// The groups this playable belongs to.
    pub groups: Vec<GroupId>,
}

impl PlayableSettings {
    /// Routing to the main track, no cooldown, no loop, no groups.
    pub fn default() -> (r: PlayableSettings)
        ensures
            r.default_track == TrackId::Main,
            r.cooldown == None::<u64>,
            r.semantic_duration == None::<i64>,
            r.default_loop_start == None::<i64>,
            r.groups@ == Seq::<GroupId>::empty(),
    {
        let r = PlayableSettings {
            default_track: TrackId::Main,
            cooldown: None,
            semantic_duration: None,
            default_loop_start: None,
            groups: Vec::new(),
        };
        proof {
            assert(r.groups@ =~= Seq::<GroupId>::empty());
        }
        r
    }
}

/// A sound: samples at their own rate, plus its playback settings and the
/// cooldown timer counting down in output frames.
pub struct Sound {
    /// The rate the samples were recorded at, in Hz.
    pub sample_rate: u32,
    /// The stereo samples.
    pub frames: Vec<Frame>,
    /// Shared playable settings.
    pub settings: PlayableSettings,
    /// Output frames left until a new instance may start.
    pub cooldown_timer: u64,
}

/// The duration of `samples` samples at `sample_rate`, in fixed-point
/// output frames at `device_rate`, clamped into range.
pub open spec fn duration_frames_spec(samples: int, sample_rate: u32, device_rate: u32) -> int {
    sat_i64((samples * FX_ONE * device_rate) / (sample_rate as int))
}

/// The position `pos` (fixed-point output frames) converted into
/// fixed-point sample units of a sound recorded at `sample_rate`.
pub open spec fn sample_pos_spec(pos: int, sample_rate: u32, device_rate: u32) -> int {
    sat_u64((pos * sample_rate) / (device_rate as int))
}

/// The frame of a sound at position `pos` (fixed-point output frames):
/// linear interpolation between the two bracketing samples, silence
/// outside the sample range.
pub open spec fn sound_frame_at_spec(s: Sound, pos: int, device_rate: u32) -> Frame {
    if pos < 0 {
        Frame { left: 0i64, right: 0i64 }
    } else {
        let sp = sample_pos_spec(pos, s.sample_rate, device_rate);
        let idx = sp / (FX_ONE as int);
        let frac = sp % (FX_ONE as int);
        if idx >= s.frames@.len() {
            Frame { left: 0i64, right: 0i64 }
        } else {
            let a = s.frames@[idx];
            let b = if idx + 1 < s.frames@.len() {
                s.frames@[idx + 1]
            } else {
                Frame { left: 0i64, right: 0i64 }
            };
            Frame {
                left: sat_i64(a.left + ((b.left - a.left) * frac) / (FX_ONE as int)) as i64,
                right: sat_i64(a.right + ((b.right - a.right) * frac) / (FX_ONE as int)) as i64,
            }
        }
    }
}

impl Sound {
    /// The sample rate is positive.
    pub open spec fn wf(&self) -> bool {
        self.sample_rate >= 1
    }

    /// A sound from samples and settings, with its cooldown idle.
    pub fn new(sample_rate: u32, frames: Vec<Frame>, settings: PlayableSettings) -> (r: Sound)
        requires
            sample_rate >= 1,
        ensures
            r.sample_rate == sample_rate,
            r.frames == frames,
            r.settings == settings,
            r.cooldown_timer == 0,
            r.wf(),
    {
        Sound { sample_rate, frames, settings, cooldown_timer: 0 }
    }

    /// The sound's duration in fixed-point output frames at `device_rate`.
    pub fn duration_frames(&self, device_rate: u32) -> (r: i64)
        requires
            self.wf(),
            device_rate >= 1,
        ensures
            r == duration_frames_spec(self.frames@.len() as int, self.sample_rate, device_rate),
    {
        let samples = self.frames.len() as u64;
        proof {
            assert(0 <= samples * 0x1_0000_0000 * device_rate
                <= 0xffff_ffff_ffff_ffff_ffff_ffff_ffff_ffff) by (nonlinear_arith)
                requires
                    0 <= samples <= 0xffff_ffff_ffff_ffff,
                    0 <= device_rate <= 0xffff_ffff;
        }
        let wide: u128 = (samples as u128) * (FX_ONE_U as u128) * (device_rate as u128);
        let q: u128 = wide / (self.sample_rate as u128);
        proof {
            crate::fx::lemma_div_nonneg_le(wide as int, self.sample_rate as int);
        }
        if q > i64::MAX as u128 {
            i64::MAX
        } else {
            q as i64
        }
    }

    /// The frame at a fixed-point output-frame position.
    pub fn frame_at(&self, pos: i64, device_rate: u32) -> (r: Frame)
        requires
            self.wf(),
            device_rate >= 1,
        ensures
            r == sound_frame_at_spec(*self, pos as int, device_rate),
    {
        if pos < 0 {
            return Frame::zero();
        }
        let sp = mul_div_u64(pos as u64, self.sample_rate as u64, device_rate as u64);
        let idx = sp / FX_ONE_U;
        let frac = sp % FX_ONE_U;
        if idx >= self.frames.len() as u64 {
            return Frame::zero();
        }
        let i = idx as usize;
        let a = self.frames[i];
        let b = if i + 1 < self.frames.len() {
            self.frames[i + 1]
        } else {
            Frame::zero()
        };
        Frame { left: lerp_fx(a.left, b.left, frac), right: lerp_fx(a.right, b.right, frac) }
    }

    /// Arm the cooldown timer, when a cooldown is configured.
    pub fn start_cooldown(&mut self)
        ensures
            *final(self) == (Sound {
                cooldown_timer: match old(self).settings.cooldown {
                    Some(c) => c,
                    None => old(self).cooldown_timer,
                },
                ..*old(self)
            }),
    {
        match self.settings.cooldown {
            Some(c) => {
                self.cooldown_timer = c;
            },
            None => {},
        }
    }

    /// One output frame passes on the cooldown timer.
    pub fn update_cooldown(&mut self)
        ensures
            *final(self) == (Sound {
                cooldown_timer: sat_u64(old(self).cooldown_timer - 1) as u64,
                ..*old(self)
            }),
    {
        self.cooldown_timer = sat_sub_u64(self.cooldown_timer, 1);
    }

    /// Whether a new instance must still wait.
    pub fn cooling_down(&self) -> (r: bool)
        ensures
            r == (self.cooldown_timer > 0),
    {
        self.cooldown_timer > 0
    }
}

/// A sound is silent outside its sample range: at any negative position
/// and at any position past its duration (for any sound shorter than the
/// sub-sample index range), the lookup yields the zero frame — so a
/// completed one-shot instance contributes exact silence.
pub proof fn lemma_sound_silent_outside(s: Sound, pos: int, device_rate: u32)
    requires
        s.wf(),
        device_rate >= 1,
        s.frames@.len() < 0x1_0000_0000,
        i64::MIN <= pos <= i64::MAX,
        pos < 0 || pos > duration_frames_spec(s.frames@.len() as int, s.sample_rate, device_rate),
    ensures
        sound_frame_at_spec(s, pos, device_rate) == (Frame { left: 0i64, right: 0i64 }),
{
    if pos >= 0 {
        let len = s.frames@.len() as int;
        let sr = s.sample_rate as int;
        let dr = device_rate as int;
        let big = len * FX_ONE * dr;
        let dur = big / sr;
        assert(0 <= len * FX_ONE * dr) by (nonlinear_arith)
            requires len >= 0, dr >= 1;
        crate::fx::lemma_div_nonneg_le(big, sr);
        assert(pos >= dur + 1);
        vstd::arithmetic::div_mod::lemma_fundamental_div_mod(big, sr);
        vstd::arithmetic::div_mod::lemma_mod_division_less_than_divisor(big, sr);
        assert((dur + 1) * sr > big) by (nonlinear_arith)
            requires big == sr * dur + big % sr, 0 <= big % sr < sr;
        assert(pos * sr >= (dur + 1) * sr) by (nonlinear_arith)
            requires pos >= dur + 1, sr >= 1;
        assert(pos * sr >= big + 1);
        assert((pos * sr) / dr >= (len * FX_ONE * dr) / dr) by {
            vstd::arithmetic::div_mod::lemma_div_is_ordered(len * FX_ONE * dr, pos * sr, dr);
        }
        assert((len * FX_ONE * dr) / dr == len * FX_ONE) by (nonlinear_arith)
            requires dr >= 1;
        let sp = sample_pos_spec(pos, s.sample_rate, device_rate);
        assert(sp >= len * FX_ONE) by {
            assert(len * FX_ONE <= (0x1_0000_0000 - 1) * 0x1_0000_0000) by (nonlinear_arith)
                requires 0 <= len < 0x1_0000_0000;
        }
        assert(sp / (FX_ONE as int) >= (len * FX_ONE) / (FX_ONE as int)) by {
            vstd::arithmetic::div_mod::lemma_div_is_ordered(len * FX_ONE, sp, FX_ONE as int);
        }
        assert((len * FX_ONE) / (FX_ONE as int) == len) by (nonlinear_arith);
    }
}

/// A sound's identifier.  It carries the metadata instances read every
/// frame (duration, routing, loop defaults); equality is on the index
/// alone.
#[derive(Clone, Copy, Debug)]
pub struct SoundId {
    pub index: u64,
    pub duration: i64,
    pub default_track: TrackId,
    pub semantic_duration: Option<i64>,
    pub default_loop_start: Option<i64>,
}

impl SoundId {
    /// Mint an id for `sound` under the minted `index`.
    pub fn new(index: u64, sound: &Sound, device_rate: u32) -> (r: SoundId)
        requires
            sound.wf(),
            device_rate >= 1,
        ensures
            r.index == index,
            r.duration == duration_frames_spec(
                sound.frames@.len() as int,
                sound.sample_rate,
                device_rate,
            ),
            r.default_track == sound.settings.default_track,
            r.semantic_duration == sound.settings.semantic_duration,
            r.default_loop_start == sound.settings.default_loop_start,
    {
        SoundId {
            index,
            duration: sound.duration_frames(device_rate),
            default_track: sound.settings.default_track,
            semantic_duration: sound.settings.semantic_duration,
            default_loop_start: sound.settings.default_loop_start,
        }
    }

    /// The duration in fixed-point output frames.
    pub fn duration(&self) -> (r: i64)
        ensures
            r == self.duration,
    {
        self.duration
    }

    /// The track instances of this sound play on by default.
    pub fn default_track(&self) -> (r: TrackId)
        ensures
            r == self.default_track,
    {
        self.default_track
    }

    /// The musical length, if any.
    pub fn semantic_duration(&self) -> (r: Option<i64>)
        ensures
            r == self.semantic_duration,
    {
        self.semantic_duration
    }

    /// The default loop start point, if any.
    pub fn default_loop_start(&self) -> (r: Option<i64>)
        ensures
            r == self.default_loop_start,
    {
        self.default_loop_start
    }
}

impl PartialEq for SoundId {
    /// Ids are equal when their indices are, whatever metadata they carry.
    fn eq(&self, other: &SoundId) -> (r: bool) {
        self.index == other.index
    }
}

impl vstd::std_specs::cmp::PartialEqSpecImpl for SoundId {
    open spec fn obeys_eq_spec() -> bool {
        true
    }

    open spec fn eq_spec(&self, other: &SoundId) -> bool {
        self.index == other.index
    }
}

} // verus!
