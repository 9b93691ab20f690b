//! A single playback occurrence of a playable: position, automation and
//! lifecycle.

use vstd::prelude::*;

verus! {

use crate::fx::{FX_ONE, sat_i64, fx_mul};
use crate::frame::{Frame, frame_panned_spec, frame_scaled_spec};
use crate::ids::SequenceInstanceId;
use crate::mixer::TrackId;
use crate::parameter::{
    Parameter, Parameters, param_set, param_step, param_step_finished, param_wf,
};
use crate::playable::{Playable, Playables, playable_frame_at_spec};
use crate::tween::Tween;
use crate::value::{CachedValue, Value, cached_update_spec};

/// The lifecycle of an instance.  `Paused` and `Pausing` remember the
/// position to rewind to on resume; `Stopped` is terminal.
#[derive(Clone, Copy, Debug, PartialEq, Eq, Structural)]
pub enum InstanceState {
    /// Emitting audio and advancing.
    Playing,
    /// Silent, position frozen at the remembered spot.
    Paused(i64),
    /// Terminal: silent and flagged for removal.
    Stopped,
    /// Still emitting while the pause fade runs down.
    Pausing(i64),
    /// Still emitting while the stop fade runs down.
    Stopping,
}

/// Where an instance loops back to.
#[derive(Clone, Copy, Debug, PartialEq, Eq, Structural)]
pub enum LoopStart {
    /// The playable's own default loop start, if it has one.
    Default,
    /// An explicit loop start position.
    Custom(i64),
    /// No looping.
    Off,
}

/// Settings for starting an instance.
#[derive(Clone, Copy, Debug)]
pub struct InstanceSettings {
    /// The volume the instance plays at.
    pub volume: Value,
    /// The playback rate as a fixed-point factor of natural speed.
    pub pitch: Value,
    /// The stereo panning, 0 hard left to [`FX_ONE`] hard right.
    pub panning: Value,
    /// Where playback starts, in fixed-point output frames.
    pub start_position: i64,
    /// An optional fade-in for the instance volume.
    pub fade_in_tween: Option<Tween>,
    /// Where the instance loops back to.
    pub loop_start: LoopStart,
    /// Play the sound backward, starting relative to the end.
    pub reverse: bool,
    /// Override of the playable's default track.
    pub track: Option<TrackId>,
}

impl InstanceSettings {
    /// Full volume, natural pitch, centered, from the start.
    pub fn default() -> (r: InstanceSettings)
        ensures
            r.volume == Value::Fixed(FX_ONE),
            r.pitch == Value::Fixed(FX_ONE),
            r.panning == Value::Fixed(0x8000_0000i64),
            r.start_position == 0,
            r.fade_in_tween == None::<Tween>,
            r.loop_start == LoopStart::Default,
            r.reverse == false,
            r.track == None::<TrackId>,
    {
        InstanceSettings {
            volume: Value::Fixed(FX_ONE),
            pitch: Value::Fixed(FX_ONE),
            panning: Value::Fixed(0x8000_0000),
            start_position: 0,
            fade_in_tween: None,
            loop_start: LoopStart::Default,
            reverse: false,
            track: None,
        }
    }
}

/// Whether a tween request actually spans frames; a zero-duration tween
/// acts as an immediate snap.
pub open spec fn real_tween(t: Option<Tween>) -> bool {
    match t {
        Some(tw) => tw.duration >= 1,
        None => false,
    }
}

/// Settings for pausing.
#[derive(Clone, Copy, Debug)]
pub struct PauseInstanceSettings {
    /// Fade the volume out over this tween before pausing.
    pub fade_tween: Option<Tween>,
}

/// Settings for resuming.
#[derive(Clone, Copy, Debug)]
pub struct ResumeInstanceSettings {
    /// Fade the volume back in over this tween.
    pub fade_tween: Option<Tween>,
    /// Jump back to where the instance was paused.
    pub rewind_to_pause_position: bool,
}

/// Settings for stopping.
#[derive(Clone, Copy, Debug)]
pub struct StopInstanceSettings {
    /// Fade the volume out over this tween before stopping.
    pub fade_tween: Option<Tween>,
}

/// An instance of a playable.
#[derive(Clone, Copy, Debug)]
pub struct Instance {
    pub playable: Playable,
    pub track_index: TrackId,
    pub sequence_id: Option<SequenceInstanceId>,
    pub volume: CachedValue,
    pub pitch: CachedValue,
    pub panning: CachedValue,
    pub loop_start: Option<i64>,
    pub reverse: bool,
    pub state: InstanceState,
    pub position: i64,
    pub fade_volume: Parameter,
}

/// States that keep emitting audio.
pub open spec fn state_playing(s: InstanceState) -> bool {
    match s {
        InstanceState::Playing => true,
        InstanceState::Paused(_) => false,
        InstanceState::Stopped => false,
        InstanceState::Pausing(_) => true,
        InstanceState::Stopping => true,
    }
}

/// The signed per-frame position delta: the pitch factor, negated when
/// the instance plays in reverse.
pub open spec fn effective_rate(pitch_value: i64, reverse: bool) -> int {
    if reverse {
        sat_i64(0 - pitch_value)
    } else {
        pitch_value as int
    }
}

/// One frame of position movement: advance by `rate`, then wrap around
/// the loop region or stop at the ends.  Returns the new position and
/// whether the instance ran off the end.  A degenerate loop region (loop
/// start not before the end) stops the instance rather than spin.
pub open spec fn advance_position(
    pos: i64,
    rate: int,
    loop_start: Option<i64>,
    duration: i64,
) -> (int, bool) {
    let p1 = sat_i64(pos + rate);
    if rate < 0 {
        match loop_start {
            Some(l) => if p1 < l {
                let d = duration - l;
                if d > 0 {
                    (l + ((p1 - l) % d), false)
                } else {
                    (p1, true)
                }
            } else {
                (p1, false)
            },
            None => if p1 < 0 {
                (p1, true)
            } else {
                (p1, false)
            },
        }
    } else {
        match loop_start {
            Some(l) => if p1 > duration {
                let d = duration - l;
                if d > 0 {
                    (duration - ((duration - p1) % d), false)
                } else {
                    (p1, true)
                }
            } else {
                (p1, false)
            },
            None => if p1 > duration {
                (p1, true)
            } else {
                (p1, false)
            },
        }
    }
}

/// The wrapped position stays inside `[0, duration]`, and inside
/// `[loop_start, duration]` once the old position had entered it:
/// the loop region invariant for forward playback.
pub proof fn lemma_advance_forward_in_bounds(pos: i64, rate: int, l: i64, duration: i64)
    requires
        0 <= l < duration,
        0 <= pos <= duration,
        rate >= 0,
    ensures
        !advance_position(pos, rate, Some(l), duration).1,
        0 <= advance_position(pos, rate, Some(l), duration).0 <= duration,
        l <= pos ==> l <= advance_position(pos, rate, Some(l), duration).0,
{
    let p1 = sat_i64(pos + rate);
    let d = duration - l;
    if p1 > duration {
        let m = (duration - p1) % d;
        assert(0 <= m < d) by {
            vstd::arithmetic::div_mod::lemma_mod_division_less_than_divisor(duration - p1, d);
        };
        assert(l < duration - m <= duration);
    }
}

/// One frame of instance evolution: while the instance is emitting, its
/// cached settings re-resolve and its position advances (wrapping or
/// stopping at the ends); the fade always advances, and a finished fade
/// settles `Pausing` into `Paused` and `Stopping` into `Stopped`.
pub open spec fn instance_step(inst: Instance, params: Parameters) -> Instance {
    let playing = state_playing(inst.state);
    let volume = if playing {
        cached_update_spec(inst.volume, params)
    } else {
        inst.volume
    };
    let pitch = if playing {
        cached_update_spec(inst.pitch, params)
    } else {
        inst.pitch
    };
    let panning = if playing {
        cached_update_spec(inst.panning, params)
    } else {
        inst.panning
    };
    let moved = advance_position(
        inst.position,
        effective_rate(pitch.last_value, inst.reverse),
        inst.loop_start,
        inst.playable.spec_duration(),
    );
    let position = if playing {
        moved.0 as i64
    } else {
        inst.position
    };
    let state1 = if playing && moved.1 {
        InstanceState::Stopped
    } else {
        inst.state
    };
    let fade = param_step(inst.fade_volume);
    let state2 = if param_step_finished(inst.fade_volume) {
        match state1 {
            InstanceState::Pausing(p) => InstanceState::Paused(p),
            InstanceState::Stopping => InstanceState::Stopped,
            s => s,
        }
    } else {
        state1
    };
    Instance { volume, pitch, panning, position, state: state2, fade_volume: fade, ..inst }
}

/// The frame an instance emits: its playable sampled at the current
/// position, panned, and scaled by volume times the fade, both clamped
/// into `[0, 1]` where the contract asks for it.
pub open spec fn instance_sample_spec(inst: Instance, ps: Playables) -> Frame {
    let pan = if inst.panning.last_value < 0 {
        0
    } else if inst.panning.last_value > FX_ONE {
        FX_ONE as int
    } else {
        inst.panning.last_value as int
    };
    let fade = if inst.fade_volume.value < 0 {
        0
    } else if inst.fade_volume.value > FX_ONE {
        FX_ONE as int
    } else {
        inst.fade_volume.value as int
    };
    let vol = sat_i64((inst.volume.last_value * fade) / (FX_ONE as int));
    frame_scaled_spec(
        frame_panned_spec(playable_frame_at_spec(ps, inst.playable, inst.position as int), pan),
        vol,
    )
}

/// Everything [`Instance::new`] promises of a fresh instance, as a
/// relation (the concrete draw of a random setting is not a function of
/// the arguments).
pub open spec fn instance_new_rel(
    playable: Playable,
    sequence_id: Option<SequenceInstanceId>,
    settings: InstanceSettings,
    r: Instance,
) -> bool {
    &&& r.playable == playable
    &&& r.sequence_id == sequence_id
    &&& r.track_index == match settings.track {
                Some(t) => t,
                None => playable.spec_default_track(),
            }
    &&& r.reverse == settings.reverse
    &&& r.state == InstanceState::Playing
    &&& r.position == if settings.reverse {
                sat_i64(playable.spec_duration() - settings.start_position)
            } else {
                settings.start_position as int
            }
    &&& r.loop_start == match (match settings.loop_start {
                LoopStart::Default => playable.spec_default_loop_start(),
                LoopStart::Custom(p) => Some(p),
                LoopStart::Off => None,
            }) {
                Some(l) => Some(
                    (if l < 0 {
                        0
                    } else if l > playable.spec_duration() {
                        playable.spec_duration() as int
                    } else {
                        l as int
                    }) as i64,
                ),
                None => None::<i64>,
            }
    &&& r.fade_volume == param_set(
                Parameter { value: 0i64, active: None },
                FX_ONE,
                settings.fade_in_tween,
            )
    &&& r.volume.value == settings.volume
    &&& r.pitch.value == settings.pitch
    &&& r.panning.value == settings.panning
    &&& match settings.volume {
                Value::Fixed(v) => r.volume.last_value == v,
                Value::Parameter(_, _) => r.volume.last_value == FX_ONE,
                Value::Random(lo, hi) => if lo <= hi {
                    lo <= r.volume.last_value <= hi
                } else {
                    hi <= r.volume.last_value <= lo
                },
            }
    &&& match settings.pitch {
                Value::Fixed(v) => r.pitch.last_value == v,
                Value::Parameter(_, _) => r.pitch.last_value == FX_ONE,
                Value::Random(lo, hi) => if lo <= hi {
                    lo <= r.pitch.last_value <= hi
                } else {
                    hi <= r.pitch.last_value <= lo
                },
            }
    &&& match settings.panning {
                Value::Fixed(v) => r.panning.last_value == v,
                Value::Parameter(_, _) => r.panning.last_value == 0x8000_0000i64,
                Value::Random(lo, hi) => if lo <= hi {
                    lo <= r.panning.last_value <= hi
                } else {
                    hi <= r.panning.last_value <= lo
                },
            }
    &&& r.wf()
    &&& match r.loop_start {
                Some(l) => 0 <= l <= playable.spec_duration(),
                None => true,
            }
}

impl Instance {
    /// Cached settings and the fade parameter are well-formed.
    pub open spec fn wf(self) -> bool {
        &&& self.volume.wf()
        &&& self.pitch.wf()
        &&& self.panning.wf()
        &&& param_wf(self.fade_volume)
    }

    /// A fresh instance of `playable`, exactly [`instance_new_rel`]:
    /// reverse playback mirrors the start position against the end; the
    /// loop start resolves from the settings or the playable and is
    /// clamped into the playable's range.
    pub fn new(
        playable: Playable,
        sequence_id: Option<SequenceInstanceId>,
        settings: InstanceSettings,
    ) -> (r: Instance)
        requires
            settings.volume.wf(),
            settings.pitch.wf(),
            settings.panning.wf(),
            playable.spec_duration() >= 0,
        ensures
            instance_new_rel(playable, sequence_id, settings, r),
    {
        let duration = playable.duration();
        let mut fade_volume = Parameter::new(0);
        fade_volume.set(FX_ONE, settings.fade_in_tween);
        let position = if settings.reverse {
            crate::fx::sat_add_i64(duration, crate::fx::sat_neg_i64(settings.start_position))
        } else {
            settings.start_position
        };
        proof {
            if settings.reverse {
                assert(sat_i64(duration + sat_i64(0 - settings.start_position)) == sat_i64(
                    duration - settings.start_position,
                ));
            }
        }
        let resolved = match settings.loop_start {
            LoopStart::Default => playable.default_loop_start(),
            LoopStart::Custom(p) => Some(p),
            LoopStart::Off => None,
        };
        let loop_start = match resolved {
            Some(l) => Some(
                if l < 0 {
                    0
                } else if l > duration {
                    duration
                } else {
                    l
                },
            ),
            None => None,
        };
        Instance {
            playable,
            track_index: match settings.track {
                Some(t) => t,
                None => playable.default_track(),
            },
            sequence_id,
            volume: CachedValue::new(settings.volume, FX_ONE),
            pitch: CachedValue::new(settings.pitch, FX_ONE),
            panning: CachedValue::new(settings.panning, 0x8000_0000),
            loop_start,
            reverse: settings.reverse,
            state: InstanceState::Playing,
            position,
            fade_volume,
        }
    }

    /// Whether the instance still emits audio.
    pub fn playing(&self) -> (r: bool)
        ensures
            r == state_playing(self.state),
    {
        match self.state {
            InstanceState::Playing => true,
            InstanceState::Paused(_) => false,
            InstanceState::Stopped => false,
            InstanceState::Pausing(_) => true,
            InstanceState::Stopping => true,
        }
    }

    /// Whether the instance has reached its terminal state.
    pub fn finished(&self) -> (r: bool)
        ensures
            r == (self.state == InstanceState::Stopped),
    {
        match self.state {
            InstanceState::Stopped => true,
            _ => false,
        }
    }

    /// Rebind the volume source.
    pub fn set_volume(&mut self, volume: Value)
        requires
            volume.wf(),
            old(self).wf(),
        ensures
            final(self).wf(),
            final(self).volume.value == volume,
            *final(self) == (Instance { volume: final(self).volume, ..*old(self) }),
            !(volume is Random) ==> final(self).volume == crate::value::cached_set_spec(
                old(self).volume,
                volume,
            ),
            volume matches Value::Random(lo, hi) ==> (if lo <= hi {
                lo <= final(self).volume.last_value <= hi
            } else {
                hi <= final(self).volume.last_value <= lo
            }),
    {
        self.volume.set(volume);
    }

    /// Rebind the pitch source.
    pub fn set_pitch(&mut self, pitch: Value)
        requires
            pitch.wf(),
            old(self).wf(),
        ensures
            final(self).wf(),
            final(self).pitch.value == pitch,
            *final(self) == (Instance { pitch: final(self).pitch, ..*old(self) }),
            !(pitch is Random) ==> final(self).pitch == crate::value::cached_set_spec(
                old(self).pitch,
                pitch,
            ),
            pitch matches Value::Random(lo, hi) ==> (if lo <= hi {
                lo <= final(self).pitch.last_value <= hi
            } else {
                hi <= final(self).pitch.last_value <= lo
            }),
    {
        self.pitch.set(pitch);
    }

    /// Rebind the panning source.
    pub fn set_panning(&mut self, panning: Value)
        requires
            panning.wf(),
            old(self).wf(),
        ensures
            final(self).wf(),
            final(self).panning.value == panning,
            *final(self) == (Instance { panning: final(self).panning, ..*old(self) }),
            !(panning is Random) ==> final(self).panning == crate::value::cached_set_spec(
                old(self).panning,
                panning,
            ),
            panning matches Value::Random(lo, hi) ==> (if lo <= hi {
                lo <= final(self).panning.last_value <= hi
            } else {
                hi <= final(self).panning.last_value <= lo
            }),
    {
        self.panning.set(panning);
    }

    /// Move the position by a signed offset.
    pub fn seek(&mut self, offset: i64)
        ensures
            *final(self) == (Instance {
                position: sat_i64(old(self).position + offset) as i64,
                ..*old(self)
            }),
    {
        self.position = crate::fx::sat_add_i64(self.position, offset);
    }

    /// Jump to an absolute position.
    pub fn seek_to(&mut self, position: i64)
        ensures
            *final(self) == (Instance { position, ..*old(self) }),
    {
        self.position = position;
    }

    /// Pause: with a real fade tween the instance keeps emitting in
    /// `Pausing` until the fade ends, otherwise it pauses at once.  A
    /// stopped instance is terminal and stays untouched.
    pub fn pause(&mut self, settings: PauseInstanceSettings)
        requires
            old(self).wf(),
        ensures
            final(self).wf(),
            *final(self) == (if old(self).state == InstanceState::Stopped {
                *old(self)
            } else {
                Instance {
                    state: if real_tween(settings.fade_tween) {
                        InstanceState::Pausing(old(self).position)
                    } else {
                        InstanceState::Paused(old(self).position)
                    },
                    fade_volume: param_set(old(self).fade_volume, 0i64, settings.fade_tween),
                    ..*old(self)
                }
            }),
    {
        match self.state {
            InstanceState::Stopped => {
                return ;
            },
            _ => {},
        }
        let fades = match settings.fade_tween {
            Some(tw) => tw.duration >= 1,
            None => false,
        };
        self.state = if fades {
            InstanceState::Pausing(self.position)
        } else {
            InstanceState::Paused(self.position)
        };
        self.fade_volume.set(0, settings.fade_tween);
    }

    /// Resume from `Paused` or `Pausing`: back to `Playing`, optionally
    /// rewinding to the pause position, fading the volume back to full.
    /// Any other state is left alone.
    pub fn resume(&mut self, settings: ResumeInstanceSettings)
        requires
            old(self).wf(),
        ensures
            final(self).wf(),
            *final(self) == (match old(self).state {
                InstanceState::Paused(p) => Instance {
                    state: InstanceState::Playing,
                    position: if settings.rewind_to_pause_position {
                        p
                    } else {
                        old(self).position
                    },
                    fade_volume: param_set(old(self).fade_volume, FX_ONE, settings.fade_tween),
                    ..*old(self)
                },
                InstanceState::Pausing(p) => Instance {
                    state: InstanceState::Playing,
                    position: if settings.rewind_to_pause_position {
                        p
                    } else {
                        old(self).position
                    },
                    fade_volume: param_set(old(self).fade_volume, FX_ONE, settings.fade_tween),
                    ..*old(self)
                },
                _ => *old(self),
            }),
    {
        let pos = match self.state {
            InstanceState::Paused(p) => Some(p),
            InstanceState::Pausing(p) => Some(p),
            _ => None,
        };
        match pos {
            Some(p) => {
                self.state = InstanceState::Playing;
                if settings.rewind_to_pause_position {
                    self.seek_to(p);
                }
                self.fade_volume.set(FX_ONE, settings.fade_tween);
            },
            None => {},
        }
    }

    /// Stop: with a real fade tween the instance keeps emitting in
    /// `Stopping` until the fade ends, otherwise it stops at once.  A
    /// stopped instance is terminal and stays untouched.
    pub fn stop(&mut self, settings: StopInstanceSettings)
        requires
            old(self).wf(),
        ensures
            final(self).wf(),
            *final(self) == (if old(self).state == InstanceState::Stopped {
                *old(self)
            } else {
                Instance {
                    state: if real_tween(settings.fade_tween) {
                        InstanceState::Stopping
                    } else {
                        InstanceState::Stopped
                    },
                    fade_volume: param_set(old(self).fade_volume, 0i64, settings.fade_tween),
                    ..*old(self)
                }
            }),
    {
        match self.state {
            InstanceState::Stopped => {
                return ;
            },
            _ => {},
        }
        let fades = match settings.fade_tween {
            Some(tw) => tw.duration >= 1,
            None => false,
        };
        self.state = if fades {
            InstanceState::Stopping
        } else {
            InstanceState::Stopped
        };
        self.fade_volume.set(0, settings.fade_tween);
    }

    /// One frame of evolution, exactly [`instance_step`].
    pub fn update(&mut self, params: &Parameters)
        requires
            old(self).wf(),
            params.wf(),
        ensures
            final(self).wf(),
            *final(self) == instance_step(*old(self), *params),
    {
        if self.playing() {
            self.volume.update(params);
            self.pitch.update(params);
            self.panning.update(params);
            let rate: i64 = if self.reverse {
                crate::fx::sat_neg_i64(self.pitch.value())
            } else {
                self.pitch.value()
            };
            let duration = self.playable.duration();
            let p1 = crate::fx::sat_add_i64(self.position, rate);
            if rate < 0 {
                match self.loop_start {
                    Some(l) => {
                        if p1 < l {
                            if duration > l {
                                let d = (duration as i128) - (l as i128);
                                let m = rem_euclid_i128((p1 as i128) - (l as i128), d);
                                let pos = (l as i128) + m;
                                self.position = pos as i64;
                            } else {
                                self.position = p1;
                                self.state = InstanceState::Stopped;
                            }
                        } else {
                            self.position = p1;
                        }
                    },
                    None => {
                        self.position = p1;
                        if p1 < 0 {
                            self.state = InstanceState::Stopped;
                        }
                    },
                }
            } else {
                match self.loop_start {
                    Some(l) => {
                        if p1 > duration {
                            if duration > l {
                                let d = (duration as i128) - (l as i128);
                                let m = rem_euclid_i128((duration as i128) - (p1 as i128), d);
                                let pos = (duration as i128) - m;
                                self.position = pos as i64;
                            } else {
                                self.position = p1;
                                self.state = InstanceState::Stopped;
                            }
                        } else {
                            self.position = p1;
                        }
                    },
                    None => {
                        self.position = p1;
                        if p1 > duration {
                            self.state = InstanceState::Stopped;
                        }
                    },
                }
            }
        }
        let finished_fading = self.fade_volume.update();
        if finished_fading {
            match self.state {
                InstanceState::Pausing(p) => {
                    self.state = InstanceState::Paused(p);
                },
                InstanceState::Stopping => {
                    self.state = InstanceState::Stopped;
                },
                _ => {},
            }
        }
    }

    /// The frame this instance emits right now.
    pub fn get_sample(&self, playables: &Playables) -> (r: Frame)
        requires
            playables.wf(),
        ensures
            r == instance_sample_spec(*self, *playables),
    {
        let raw = playables.frame_at(self.playable, self.position);
        let pv = self.panning.value();
        let pan: i64 = if pv < 0 {
            0
        } else if pv > FX_ONE {
            FX_ONE
        } else {
            pv
        };
        let fv = self.fade_volume.value();
        let fade: i64 = if fv < 0 {
            0
        } else if fv > FX_ONE {
            FX_ONE
        } else {
            fv
        };
        let vol = fx_mul(self.volume.value(), fade);
        raw.panned(pan as u64).scaled(vol)
    }
}

/// The Euclidean remainder by a positive divisor, with the wide operands
/// that position wrapping needs.
fn rem_euclid_i128(x: i128, d: i128) -> (r: i128)
    requires
        d >= 1,
    ensures
        r == x as int % (d as int),
        0 <= r < d,
{
    proof {
        vstd::arithmetic::div_mod::lemma_mod_division_less_than_divisor(x as int, d as int);
    }
    match x.checked_rem_euclid(d) {
        Some(m) => m,
        None => 0,
    }
}

} // verus!
