//! The mixer: a main track plus sub-tracks, each with an effect chain.

use vstd::prelude::*;

verus! {

use crate::fx::{FX_ONE, FX_ONE_U};
use crate::frame::{Frame, frame_add_spec, frame_scaled_spec};
use crate::ids::{SubTrackId, EffectId};
use crate::parameter::Parameters;
use crate::table::{Table, has_key, key_idx, lemma_key_idx_unique};
use crate::value::{CachedValue, cached_update_spec};

/// A mixer track: the main bus or one of the sub-busses.
#[derive(Clone, Copy, Debug, PartialEq, Eq, Hash, Structural)]
pub enum TrackId {
    /// The main track; every sub-track feeds into it.
    Main,
    /// A sub-track, useful for grouping sounds under one volume and
    /// effect chain.
    Sub(SubTrackId),
}

/// A track referred to either by id or by a control-side name.
#[derive(Clone, Debug, PartialEq, Eq, Hash)]
pub enum TrackLabel {
    /// Directly by id.
    Id(TrackId),
    /// By a name that the control side resolves to an id.
    Name(String),
}

/// Settings for a mixer track.
#[derive(Clone, Copy, Debug, PartialEq, Eq, Structural)]
pub struct TrackSettings {
    /// The track volume as a fixed-point factor.
    pub volume: i64,
}

impl TrackSettings {
    /// Full volume.
    pub fn default() -> (r: TrackSettings)
        ensures
            r == (TrackSettings { volume: FX_ONE }),
    {
        TrackSettings { volume: FX_ONE }
    }
}

/// A built-in effect.  Effects transform one frame per output frame and may
/// track parameters through cached values.
#[derive(Clone, Copy, Debug, PartialEq, Eq, Structural)]
pub enum Effect {
    /// Scale the signal by a gain factor bound to a value source.
    Gain(CachedValue),
    /// Swap the left and right channels.
    SwapChannels,
    /// Collapse the signal to mono, each channel averaging the two.
    MonoFold,
}

/// One frame of effect state evolution: cached values re-resolve.
pub open spec fn effect_step(e: Effect, params: Parameters) -> Effect {
    match e {
        Effect::Gain(cv) => Effect::Gain(cached_update_spec(cv, params)),
        _ => e,
    }
}

/// The output of an effect on `input`, given its (already stepped) state.
pub open spec fn effect_out(e: Effect, input: Frame) -> Frame {
    match e {
        Effect::Gain(cv) => frame_scaled_spec(input, cv.last_value as int),
        Effect::SwapChannels => Frame { left: input.right, right: input.left },
        Effect::MonoFold => {
            let mono = crate::fx::sat_i64(
                (crate::fx::sat_i64(input.left + input.right) * (0x8000_0000)) / (FX_ONE as int),
            ) as i64;
            Frame { left: mono, right: mono }
        },
    }
}

/// An effect's cached values are well-formed.
pub open spec fn effect_wf(e: Effect) -> bool {
    match e {
        Effect::Gain(cv) => cv.wf(),
        _ => true,
    }
}

impl Effect {
    /// Step the effect's cached values, then transform `input`.
    pub fn process(&mut self, input: Frame, params: &Parameters) -> (r: Frame)
        requires
            effect_wf(*old(self)),
            params.wf(),
        ensures
            *final(self) == effect_step(*old(self), *params),
            r == effect_out(*final(self), input),
            effect_wf(*final(self)),
    {
        match self {
            Effect::Gain(cv) => {
                cv.update(params);
                input.scaled(cv.value())
            },
            Effect::SwapChannels => Frame { left: input.right, right: input.left },
            Effect::MonoFold => {
                let sum = crate::fx::sat_add_i64(input.left, input.right);
                let mono = crate::fx::mul_div_i64(sum, 0x8000_0000, FX_ONE_U);
                Frame { left: mono, right: mono }
            },
        }
    }
}

/// An effect in a track's chain, with an enable switch and a dry/wet mix.
#[derive(Clone, Copy, Debug, PartialEq, Eq, Structural)]
pub struct EffectSlot {
    pub effect: Effect,
    pub enabled: bool,
    pub mix: CachedValue,
}

/// Settings for a new effect slot.
#[derive(Clone, Copy, Debug)]
pub struct EffectSettings {
    pub enabled: bool,
    pub mix: crate::value::Value,
}

/// A slot's cached values are well-formed.
pub open spec fn slot_wf(s: EffectSlot) -> bool {
    effect_wf(s.effect) && s.mix.wf()
}

/// One frame of slot state evolution.
pub open spec fn slot_step(s: EffectSlot, params: Parameters) -> EffectSlot {
    EffectSlot {
        effect: effect_step(s.effect, params),
        enabled: s.enabled,
        mix: cached_update_spec(s.mix, params),
    }
}

/// The mix factor of a (stepped) slot, clamped into `[0, 1]`.
pub open spec fn slot_mix_amount(s: EffectSlot) -> int {
    if s.mix.last_value < 0 {
        0
    } else if s.mix.last_value > FX_ONE {
        FX_ONE as int
    } else {
        s.mix.last_value as int
    }
}

/// The output of a (stepped) slot: the dry and wet signals crossfaded by
/// the mix amount, or the dry signal alone when disabled.
pub open spec fn slot_out(s: EffectSlot, input: Frame) -> Frame {
    if s.enabled {
        let wet = effect_out(s.effect, input);
        let m = slot_mix_amount(s);
        frame_add_spec(
            frame_scaled_spec(input, FX_ONE - m),
            frame_scaled_spec(wet, m),
        )
    } else {
        input
    }
}

impl EffectSlot {
    /// A slot around `effect` with the given settings.
    pub fn new(effect: Effect, settings: EffectSettings) -> (r: EffectSlot)
        requires
            effect_wf(effect),
            settings.mix.wf(),
        ensures
            r.effect == effect,
            r.enabled == settings.enabled,
            r.mix.value == settings.mix,
            slot_wf(r),
    {
        EffectSlot { effect, enabled: settings.enabled, mix: CachedValue::new(settings.mix, FX_ONE) }
    }

    /// Step the slot's state, then transform `input`.
    pub fn process(&mut self, input: Frame, params: &Parameters) -> (r: Frame)
        requires
            slot_wf(*old(self)),
            params.wf(),
        ensures
            *final(self) == slot_step(*old(self), *params),
            r == slot_out(*final(self), input),
            slot_wf(*final(self)),
    {
        self.mix.update(params);
        if self.enabled {
            let wet = self.effect.process(input, params);
            let mv = self.mix.value();
            let m: i64 = if mv < 0 {
                0
            } else if mv > FX_ONE {
                FX_ONE
            } else {
                mv
            };
            input.scaled(FX_ONE - m).add(wet.scaled(m))
        } else {
            let _ = self.effect.process(input, params);
            input
        }
    }
}

/// The observable state of a track.
pub struct TrackModel {
    pub volume: i64,
    pub slots: Seq<(u64, EffectSlot)>,
    pub input: Frame,
}

/// The observable state of the whole mixer.
pub struct MixerModel {
    pub main: TrackModel,
    pub subs: Seq<(u64, TrackModel)>,
}

/// The effect chain stepped slot by slot.
pub open spec fn slots_stepped(slots: Seq<(u64, EffectSlot)>, params: Parameters) -> Seq<
    (u64, EffectSlot),
> {
    slots.map_values(|p: (u64, EffectSlot)| (p.0, slot_step(p.1, params)))
}

/// The signal after the first `n` (already stepped) slots of the chain.
pub open spec fn chain_out(slots: Seq<(u64, EffectSlot)>, input: Frame, n: int) -> Frame
    decreases n,
{
    if n <= 0 {
        input
    } else {
        slot_out(slots[n - 1].1, chain_out(slots, input, n - 1))
    }
}

/// A track with one more frame accumulated on its input.
pub open spec fn track_with_input(t: TrackModel, f: Frame) -> TrackModel {
    TrackModel { input: frame_add_spec(t.input, f), ..t }
}

/// A track after one mixing cycle: chain stepped, input drained.
pub open spec fn track_processed(t: TrackModel, params: Parameters) -> TrackModel {
    TrackModel {
        volume: t.volume,
        slots: slots_stepped(t.slots, params),
        input: Frame { left: 0i64, right: 0i64 },
    }
}

/// What a track emits for an accumulated input: the input runs through the
/// stepped chain in insertion order, then the track volume scales it.
pub open spec fn track_out(t: TrackModel, params: Parameters) -> Frame {
    let stepped = slots_stepped(t.slots, params);
    frame_scaled_spec(chain_out(stepped, t.input, stepped.len() as int), t.volume as int)
}

/// A mixing bus: accumulates input frames, then feeds them through its
/// effect chain and volume once per output frame.
pub struct Track {
    pub volume: i64,
    pub effect_slots: Table<EffectSlot>,
    pub input: Frame,
}

impl Track {
    /// The observable state.
    pub open spec fn view(&self) -> TrackModel {
        TrackModel { volume: self.volume, slots: self.effect_slots.view(), input: self.input }
    }

    /// All slots well-formed and the table consistent.
    pub open spec fn wf(&self) -> bool {
        &&& self.effect_slots.wf()
        &&& forall|i: int|
            0 <= i < self.effect_slots.view().len() ==> #[trigger] slot_wf(
                self.effect_slots.view()[i].1,
            )
    }

    /// An idle track with the given settings and room for `cap` effects.
    pub fn new(settings: TrackSettings, cap: usize) -> (r: Track)
        ensures
            r@ == (TrackModel {
                volume: settings.volume,
                slots: Seq::<(u64, EffectSlot)>::empty(),
                input: Frame { left: 0i64, right: 0i64 },
            }),
            r.effect_slots.spec_cap() == cap,
            r.wf(),
    {
        Track { volume: settings.volume, effect_slots: Table::new(cap), input: Frame::zero() }
    }

    /// Add an effect; rejected when the id is taken or the chain is full.
    pub fn add_effect(&mut self, id: EffectId, effect: Effect, settings: EffectSettings) -> (r:
        bool)
        requires
            old(self).wf(),
            effect_wf(effect),
            settings.mix.wf(),
        ensures
            final(self).wf(),
            r == (!has_key(old(self)@.slots, id.index) && old(self)@.slots.len() < old(
                self,
            ).effect_slots.spec_cap()),
            final(self)@.volume == old(self)@.volume,
            final(self)@.input == old(self)@.input,
            final(self).effect_slots.spec_cap() == old(self).effect_slots.spec_cap(),
            !r ==> final(self)@.slots == old(self)@.slots,
            r ==> ({
                let slots = final(self)@.slots;
                &&& slots.len() == old(self)@.slots.len() + 1
                &&& slots.subrange(0, old(self)@.slots.len() as int) == old(self)@.slots
                &&& slots.last().0 == id.index
                &&& slots.last().1.effect == effect
                &&& slots.last().1.enabled == settings.enabled
                &&& slots.last().1.mix.value == settings.mix
            }),
    {
        if self.effect_slots.contains(id.index) {
            return false;
        }
        if self.effect_slots.len() >= self.effect_slots.capacity() {
            return false;
        }
        self.effect_slots.push(id.index, EffectSlot::new(effect, settings));
        proof {
            assert(self@.slots.subrange(0, old(self)@.slots.len() as int) =~= old(self)@.slots);
        }
        true
    }

    /// Remove the effect with the given id, if present.
    pub fn remove_effect(&mut self, id: EffectId) -> (r: bool)
        requires
            old(self).wf(),
        ensures
            final(self).wf(),
            r == has_key(old(self)@.slots, id.index),
            final(self)@.volume == old(self)@.volume,
            final(self)@.input == old(self)@.input,
            final(self).effect_slots.spec_cap() == old(self).effect_slots.spec_cap(),
            match key_idx(old(self)@.slots, id.index) {
                Some(i) => final(self)@.slots == old(self)@.slots.remove(i),
                None => final(self)@.slots == old(self)@.slots,
            },
    {
        match self.effect_slots.idx_of(id.index) {
            Some(i) => {
                proof {
                    lemma_key_idx_unique(self.effect_slots.view(), id.index, i as int);
                }
                self.effect_slots.remove_at(i);
                true
            },
            None => false,
        }
    }

    /// Accumulate an input frame for this output cycle.
    pub fn add_input(&mut self, input: Frame)
        ensures
            final(self)@ == track_with_input(old(self)@, input),
            final(self).effect_slots.spec_cap() == old(self).effect_slots.spec_cap(),
            old(self).wf() ==> final(self).wf(),
    {
        self.input = self.input.add(input);
    }

    /// Emit this cycle's frame: drain the accumulated input through the
    /// effect chain and the track volume, resetting the accumulator.
    pub fn process(&mut self, params: &Parameters) -> (r: Frame)
        requires
            old(self).wf(),
            params.wf(),
        ensures
            final(self).wf(),
            r == track_out(old(self)@, *params),
            final(self)@ == track_processed(old(self)@, *params),
            final(self).effect_slots.spec_cap() == old(self).effect_slots.spec_cap(),
    {
        let ghost orig = old(self)@;
        let ghost stepped = slots_stepped(orig.slots, *params);
        let mut signal = self.input;
        self.input = Frame::zero();
        let n = self.effect_slots.len();
        let mut i: usize = 0;
        while i < n
            invariant
                i <= n,
                n == self.effect_slots.view().len(),
                self.effect_slots.view().len() == orig.slots.len(),
                self.effect_slots.spec_cap() == old(self).effect_slots.spec_cap(),
                self.effect_slots.wf(),
                params.wf(),
                self.volume == orig.volume,
                self.input == (Frame { left: 0i64, right: 0i64 }),
                stepped == slots_stepped(orig.slots, *params),
                forall|j: int| 0 <= j < i ==> #[trigger] self.effect_slots.view()[j] == stepped[j],
                forall|j: int|
                    i <= j < n ==> #[trigger] self.effect_slots.view()[j] == orig.slots[j],
                forall|j: int|
                    0 <= j < n ==> #[trigger] slot_wf(self.effect_slots.view()[j].1),
                signal == chain_out(stepped, orig.input, i as int),
            decreases n - i,
        {
            let slot = self.effect_slots.value_at_mut(i);
            signal = slot.process(signal, params);
            i = i + 1;
        }
        proof {
            assert(self.effect_slots.view() =~= stepped);
        }
        signal.scaled(self.volume)
    }
}

/// The sum of the (stepped) outputs of all sub-tracks in insertion order.
pub open spec fn sub_mix_out(subs: Seq<(u64, TrackModel)>, params: Parameters, n: int) -> Frame
    decreases n,
{
    if n <= 0 {
        Frame { left: 0i64, right: 0i64 }
    } else {
        frame_add_spec(sub_mix_out(subs, params, n - 1), track_out(subs[n - 1].1, params))
    }
}

/// A mixer with one more frame accumulated on a track's input.  A frame
/// for a removed sub-track is dropped.
pub open spec fn mixer_with_input(m: MixerModel, track: TrackId, f: Frame) -> MixerModel {
    match track {
        TrackId::Main => MixerModel { main: track_with_input(m.main, f), ..m },
        TrackId::Sub(sid) => match key_idx(m.subs, sid.index) {
            Some(i) => MixerModel {
                subs: m.subs.update(i, (sid.index, track_with_input(m.subs[i].1, f))),
                ..m
            },
            None => m,
        },
    }
}

/// The mixer after one cycle: every track's chain stepped and input
/// drained, the sub-mix having passed through the main track.
pub open spec fn mixer_processed(m: MixerModel, params: Parameters) -> MixerModel {
    MixerModel {
        main: track_processed(
            track_with_input(m.main, sub_mix_out(m.subs, params, m.subs.len() as int)),
            params,
        ),
        subs: m.subs.map_values(|p: (u64, TrackModel)| (p.0, track_processed(p.1, params))),
    }
}

/// What the whole mixer emits in one cycle: every sub-track's output, in
/// insertion order, summed into the main track's input, then the main
/// track's own chain and volume.
pub open spec fn mixer_out(m: MixerModel, params: Parameters) -> Frame {
    track_out(
        track_with_input(m.main, sub_mix_out(m.subs, params, m.subs.len() as int)),
        params,
    )
}

/// The mixer: the main track and the sub-tracks in insertion order.
pub struct Mixer {
    pub main: Track,
    pub sub_tracks: Table<Track>,
    pub effects_per_track: usize,
}

impl Mixer {
    /// The observable state.
    pub open spec fn view(&self) -> MixerModel {
        MixerModel {
            main: self.main@,
            subs: self.sub_tracks.view().map_values(|p: (u64, Track)| (p.0, p.1@)),
        }
    }

    /// All tracks well-formed.
    pub open spec fn wf(&self) -> bool {
        &&& self.main.wf()
        &&& self.sub_tracks.wf()
        &&& forall|i: int|
            0 <= i < self.sub_tracks.view().len() ==> (#[trigger] self.sub_tracks.view()[i].1).wf()
    }

    /// A mixer with an idle main track and room for `num_tracks`
    /// sub-tracks of `num_effects` effects each.
    pub fn new(num_tracks: usize, num_effects: usize) -> (r: Mixer)
        ensures
            r.wf(),
            r@ == (MixerModel {
                main: TrackModel {
                    volume: FX_ONE,
                    slots: Seq::<(u64, EffectSlot)>::empty(),
                    input: Frame { left: 0i64, right: 0i64 },
                },
                subs: Seq::<(u64, TrackModel)>::empty(),
            }),
            r.sub_tracks.spec_cap() == num_tracks,
    {
        let r = Mixer {
            main: Track::new(TrackSettings::default(), num_effects),
            sub_tracks: Table::new(num_tracks),
            effects_per_track: num_effects,
        };
        proof {
            assert(r@.subs =~= Seq::<(u64, TrackModel)>::empty());
        }
        r
    }

    /// Add a sub-track; rejected when the id is taken or the mixer is full.
    pub fn add_sub_track(&mut self, id: SubTrackId, settings: TrackSettings) -> (r: bool)
        requires
            old(self).wf(),
        ensures
            final(self).wf(),
            r == (!has_key(old(self)@.subs, id.index) && old(self)@.subs.len() < old(
                self,
            ).sub_tracks.spec_cap()),
            r ==> final(self)@.subs == old(self)@.subs.push(
                (
                    id.index,
                    TrackModel {
                        volume: settings.volume,
                        slots: Seq::<(u64, EffectSlot)>::empty(),
                        input: Frame { left: 0i64, right: 0i64 },
                    },
                ),
            ),
            !r ==> final(self)@.subs == old(self)@.subs,
            final(self)@.main == old(self)@.main,
            final(self).sub_tracks.spec_cap() == old(self).sub_tracks.spec_cap(),
    {
        proof {
            self.lemma_sub_keys();
        }
        if self.sub_tracks.contains(id.index) {
            return false;
        }
        if self.sub_tracks.len() >= self.sub_tracks.capacity() {
            return false;
        }
        let cap = self.effects_per_track;
        self.sub_tracks.push(id.index, Track::new(settings, cap));
        proof {
            assert(self@.subs =~= old(self)@.subs.push(
                (
                    id.index,
                    TrackModel {
                        volume: settings.volume,
                        slots: Seq::<(u64, EffectSlot)>::empty(),
                        input: Frame { left: 0i64, right: 0i64 },
                    },
                ),
            ));
        }
        true
    }

    /// Keys of the model agree with keys of the table.
    pub proof fn lemma_sub_keys(&self)
        ensures
            forall|id: u64| has_key(self@.subs, id) == has_key(self.sub_tracks.view(), id),
            self@.subs.len() == self.sub_tracks.view().len(),
            forall|i: int|
                0 <= i < self.sub_tracks.view().len() ==> (#[trigger] self@.subs[i]).0
                    == self.sub_tracks.view()[i].0,
    {
        assert forall|id: u64|
            has_key(self@.subs, id) == has_key(self.sub_tracks.view(), id) by {
            if has_key(self@.subs, id) {
                let i = choose|i: int|
                    0 <= i < self@.subs.len() && self@.subs[i].0 == id;
                assert(self.sub_tracks.view()[i].0 == id);
            }
            if has_key(self.sub_tracks.view(), id) {
                let i = choose|i: int|
                    0 <= i < self.sub_tracks.view().len() && self.sub_tracks.view()[i].0 == id;
                assert(self@.subs[i].0 == id);
            }
        }
    }

    /// Remove a sub-track, if present.
    pub fn remove_sub_track(&mut self, id: SubTrackId) -> (r: bool)
        requires
            old(self).wf(),
        ensures
            final(self).wf(),
            r == has_key(old(self)@.subs, id.index),
            final(self)@.main == old(self)@.main,
            final(self).sub_tracks.spec_cap() == old(self).sub_tracks.spec_cap(),
            match key_idx(old(self)@.subs, id.index) {
                Some(i) => final(self)@.subs == old(self)@.subs.remove(i),
                None => final(self)@.subs == old(self)@.subs,
            },
    {
        proof {
            self.lemma_sub_keys();
        }
        match self.sub_tracks.idx_of(id.index) {
            Some(i) => {
                proof {
                    lemma_key_idx_unique(self.sub_tracks.view(), id.index, i as int);
                    assert(self@.subs[i as int].0 == id.index);
                    lemma_key_idx_unique(self@.subs, id.index, i as int);
                }
                self.sub_tracks.remove_at(i);
                proof {
                    assert(self@.subs =~= old(self)@.subs.remove(i as int));
                }
                true
            },
            None => {
                proof {
                    assert(key_idx(old(self)@.subs, id.index) is None);
                }
                false
            },
        }
    }

    /// Accumulate a frame into a track's input.  A missing sub-track id
    /// drops the frame, as resources may be removed at any time.
    pub fn add_input(&mut self, track: TrackId, input: Frame)
        requires
            old(self).wf(),
        ensures
            final(self).wf(),
            final(self)@ == mixer_with_input(old(self)@, track, input),
            final(self).sub_tracks.spec_cap() == old(self).sub_tracks.spec_cap(),
    {
        proof {
            self.lemma_sub_keys();
        }
        match track {
            TrackId::Main => {
                self.main.add_input(input);
            },
            TrackId::Sub(sid) => {
                match self.sub_tracks.idx_of(sid.index) {
                    Some(i) => {
                        proof {
                            lemma_key_idx_unique(self.sub_tracks.view(), sid.index, i as int);
                            assert(self@.subs[i as int].0 == sid.index);
                            lemma_key_idx_unique(self@.subs, sid.index, i as int);
                        }
                        let t = self.sub_tracks.value_at_mut(i);
                        t.add_input(input);
                        proof {
                            assert(self@.subs =~= old(self)@.subs.update(
                                i as int,
                                (sid.index, track_with_input(old(self)@.subs[i as int].1, input)),
                            ));
                        }
                    },
                    None => {
                        proof {
                            assert(key_idx(old(self)@.subs, sid.index) is None);
                        }
                    },
                }
            },
        }
    }

    /// One mixing cycle: each sub-track emits its frame into the main
    /// track in insertion order, then the main track emits the output.
    pub fn process(&mut self, params: &Parameters) -> (r: Frame)
        requires
            old(self).wf(),
            params.wf(),
        ensures
            final(self).wf(),
            r == mixer_out(old(self)@, *params),
            final(self)@ == mixer_processed(old(self)@, *params),
            final(self).sub_tracks.spec_cap() == old(self).sub_tracks.spec_cap(),
    {
        let ghost orig = old(self)@;
        let n = self.sub_tracks.len();
        let mut i: usize = 0;
        let mut acc = Frame::zero();
        while i < n
            invariant
                i <= n,
                n == self.sub_tracks.view().len(),
                self.sub_tracks.view().len() == orig.subs.len(),
                self.sub_tracks.spec_cap() == old(self).sub_tracks.spec_cap(),
                self.sub_tracks.wf(),
                params.wf(),
                self.main == old(self).main,
                self.main@ == orig.main,
                forall|j: int|
                    0 <= j < n ==> (#[trigger] self.sub_tracks.view()[j].1).wf(),
                forall|j: int|
                    i <= j < n ==> (#[trigger] self.sub_tracks.view()[j]).1@ == orig.subs[j].1
                        && self.sub_tracks.view()[j].0 == orig.subs[j].0,
                forall|j: int|
                    0 <= j < i ==> (#[trigger] self.sub_tracks.view()[j]).1@ == track_processed(
                        orig.subs[j].1,
                        *params,
                    ) && self.sub_tracks.view()[j].0 == orig.subs[j].0,
                acc == sub_mix_out(orig.subs, *params, i as int),
            decreases n - i,
        {
            let ghost pre = self.sub_tracks.view();
            let t = self.sub_tracks.value_at_mut(i);
            let out = t.process(params);
            proof {
                assert(self.sub_tracks.view()[i as int].1@ == track_processed(
                    orig.subs[i as int].1,
                    *params,
                ));
                assert forall|j: int| 0 <= j < n && j != i implies #[trigger] self.sub_tracks.view()[j]
                    == pre[j] by {}
            }
            acc = acc.add(out);
            i = i + 1;
        }
        self.main.add_input(acc);
        let r = self.main.process(params);
        proof {
            assert(self@.subs =~= mixer_processed(orig, *params).subs);
        }
        r
    }
}

} // verus!
