//! Sequences: programmable lists of timed steps controlling instances.
//!
//! A sequence's steps refer to the instances they will start through
//! small slot numbers; the running sequence holds one concrete
//! [`InstanceId`] per slot.  When a looping sequence jumps back to its
//! loop point, every slot is bound to a fresh id, so each loop iteration
//! produces distinct instances.

use vstd::prelude::*;

verus! {

use crate::fx::{FX_ONE_U, sat_u64, sat_sub_u64, ceil_div_spec, ceil_div_u64};
use crate::ids::{GroupId, IdSource, InstanceId, MetronomeId, SequenceInstanceId};
use crate::instance::{
    InstanceSettings, PauseInstanceSettings, ResumeInstanceSettings, StopInstanceSettings,
};
use crate::metronome::{Metronome, interval_passed_spec};
use crate::playable::Playable;
use crate::rng::AudioRng;
use crate::sound::SoundId;
use crate::table::{Table, has_key, keys_unique};

/// How long a wait step lasts.
#[derive(Clone, Copy, Debug)]
pub enum StepDuration {
    /// A fixed number of output frames.
    Frames(u64),
    /// Beats (fixed point) under the bound metronome's effective tempo;
    /// with no metronome or a stopped one the wait never ends.
    Beats(u64),
}

/// A command a sequence emits, with instances named by slot.
#[derive(Clone, Copy, Debug)]
pub enum SequenceOutputCommand {
    /// Start the slot's instance playing the playable.
    PlaySound(usize, Playable, InstanceSettings),
    /// Pause the slot's instance.
    PauseInstance(usize, PauseInstanceSettings),
    /// Resume the slot's instance.
    ResumeInstance(usize, ResumeInstanceSettings),
    /// Stop the slot's instance.
    StopInstance(usize, StopInstanceSettings),
    /// Start a metronome.
    StartMetronome(MetronomeId),
    /// Pause a metronome.
    PauseMetronome(MetronomeId),
    /// Stop a metronome.
    StopMetronome(MetronomeId),
}

/// One step of a sequence.
#[derive(Clone, Debug)]
pub enum SequenceStep {
    /// Do nothing for a while.
    Wait(StepDuration),
    /// Block until the bound metronome sees the interval pass.
    WaitForInterval(u64),
    /// Emit a prebuilt command and move on at once.
    RunCommand(SequenceOutputCommand),
    /// Emit a play command for one of the sounds, chosen uniformly, and
    /// move on at once.
    PlayRandom(usize, Vec<SoundId>, InstanceSettings),
    /// Emit a user event and move on at once.
    EmitCustomEvent(u64),
}

/// A command a sequence has emitted, with slots resolved to ids.
#[derive(Clone, Copy, Debug)]
pub enum SequenceOutput {
    /// Start this instance, owned by the emitting sequence, playing the
    /// playable.
    PlaySound(InstanceId, SequenceInstanceId, Playable, InstanceSettings),
    /// Pause this instance.
    PauseInstance(InstanceId, PauseInstanceSettings),
    /// Resume this instance.
    ResumeInstance(InstanceId, ResumeInstanceSettings),
    /// Stop this instance.
    StopInstance(InstanceId, StopInstanceSettings),
    /// Start a metronome.
    StartMetronome(MetronomeId),
    /// Pause a metronome.
    PauseMetronome(MetronomeId),
    /// Stop a metronome.
    StopMetronome(MetronomeId),
}

/// The lifecycle of a running sequence.
#[derive(Clone, Copy, Debug, PartialEq, Eq, Structural)]
pub enum SequenceInstanceState {
    /// Advancing through its steps.
    Playing,
    /// Frozen until resumed.
    Paused,
    /// Terminal: all steps done, or stopped.
    Finished,
}

/// The largest slot number a step mentions, plus one; zero when none.
pub open spec fn step_slots_below(s: SequenceStep, n: int) -> bool {
    match s {
        SequenceStep::RunCommand(c) => match c {
            SequenceOutputCommand::PlaySound(slot, _, _) => slot < n,
            SequenceOutputCommand::PauseInstance(slot, _) => slot < n,
            SequenceOutputCommand::ResumeInstance(slot, _) => slot < n,
            SequenceOutputCommand::StopInstance(slot, _) => slot < n,
            _ => true,
        },
        SequenceStep::PlayRandom(slot, _, _) => slot < n,
        _ => true,
    }
}

/// A sequence under construction, on the control side.
#[derive(Clone, Debug)]
pub struct Sequence {
    /// The steps, in order.
    pub steps: Vec<SequenceStep>,
    /// Where the sequence jumps after its last step, if it loops.
    pub loop_point: Option<usize>,
    /// How many instance slots the steps use.
    pub n_slots: usize,
    /// The groups this sequence belongs to.
    pub groups: Vec<GroupId>,
}

/// A sequence is valid when its loop point lies inside the step list,
/// every slot is allocated, and no random choice is empty.
pub open spec fn sequence_valid(s: Sequence) -> bool {
    &&& match s.loop_point {
        Some(lp) => lp < s.steps@.len(),
        None => true,
    }
    &&& forall|i: int|
        0 <= i < s.steps@.len() ==> step_slots_below(#[trigger] s.steps@[i], s.n_slots as int)
    &&& forall|i: int|
        0 <= i < s.steps@.len() ==> match #[trigger] s.steps@[i] {
            SequenceStep::PlayRandom(_, choices, _) => choices@.len() >= 1,
            _ => true,
        }
}

impl Sequence {
    /// An empty sequence.
    pub fn new(groups: Vec<GroupId>) -> (r: Sequence)
        ensures
            r.steps@ == Seq::<SequenceStep>::empty(),
            r.loop_point == None::<usize>,
            r.n_slots == 0,
            r.groups == groups,
            sequence_valid(r),
    {
        let r = Sequence { steps: Vec::new(), loop_point: None, n_slots: 0, groups };
        proof {
            assert(r.steps@ =~= Seq::<SequenceStep>::empty());
        }
        r
    }

    /// Append a wait step.
    pub fn wait(&mut self, duration: StepDuration)
        ensures
            final(self).steps@ == old(self).steps@.push(SequenceStep::Wait(duration)),
            final(self).loop_point == old(self).loop_point,
            final(self).n_slots == old(self).n_slots,
            final(self).groups == old(self).groups,
            sequence_valid(*old(self)) ==> sequence_valid(*final(self)),
    {
        self.steps.push(SequenceStep::Wait(duration));
    }

    /// Append a wait-for-interval step.
    pub fn wait_for_interval(&mut self, interval: u64)
        ensures
            final(self).steps@ == old(self).steps@.push(SequenceStep::WaitForInterval(interval)),
            final(self).loop_point == old(self).loop_point,
            final(self).n_slots == old(self).n_slots,
            final(self).groups == old(self).groups,
            sequence_valid(*old(self)) ==> sequence_valid(*final(self)),
    {
        self.steps.push(SequenceStep::WaitForInterval(interval));
    }

    /// Append a play step and hand back the slot it will start.
    pub fn play(&mut self, playable: Playable, settings: InstanceSettings) -> (slot: usize)
        requires
            old(self).n_slots < usize::MAX,
        ensures
            slot == old(self).n_slots,
            final(self).steps@ == old(self).steps@.push(
                SequenceStep::RunCommand(
                    SequenceOutputCommand::PlaySound(old(self).n_slots, playable, settings),
                ),
            ),
            final(self).loop_point == old(self).loop_point,
            final(self).n_slots == old(self).n_slots + 1,
            final(self).groups == old(self).groups,
            sequence_valid(*old(self)) ==> sequence_valid(*final(self)),
    {
        let slot = self.n_slots;
        self.n_slots = self.n_slots + 1;
        self.steps.push(
            SequenceStep::RunCommand(SequenceOutputCommand::PlaySound(slot, playable, settings)),
        );
        proof {
            if sequence_valid(*old(self)) {
                assert forall|i: int|
                    0 <= i < self.steps@.len() implies step_slots_below(
                    #[trigger] self.steps@[i],
                    self.n_slots as int,
                ) by {
                    if i < old(self).steps@.len() {
                        assert(step_slots_below(old(self).steps@[i], old(self).n_slots as int));
                    }
                }
            }
        }
        slot
    }

    /// Append a stop step for a slot handed out earlier.
    pub fn stop_instance(&mut self, slot: usize, settings: StopInstanceSettings)
        requires
            slot < old(self).n_slots,
        ensures
            final(self).steps@ == old(self).steps@.push(
                SequenceStep::RunCommand(SequenceOutputCommand::StopInstance(slot, settings)),
            ),
            final(self).loop_point == old(self).loop_point,
            final(self).n_slots == old(self).n_slots,
            final(self).groups == old(self).groups,
            sequence_valid(*old(self)) ==> sequence_valid(*final(self)),
    {
        self.steps.push(
            SequenceStep::RunCommand(SequenceOutputCommand::StopInstance(slot, settings)),
        );
    }

    /// Append a random-choice play step for a fresh slot.
    pub fn play_random(&mut self, choices: Vec<SoundId>, settings: InstanceSettings) -> (slot:
        usize)
        requires
            old(self).n_slots < usize::MAX,
            choices@.len() >= 1,
        ensures
            slot == old(self).n_slots,
            final(self).steps@ == old(self).steps@.push(
                SequenceStep::PlayRandom(old(self).n_slots, choices, settings),
            ),
            final(self).loop_point == old(self).loop_point,
            final(self).n_slots == old(self).n_slots + 1,
            final(self).groups == old(self).groups,
            sequence_valid(*old(self)) ==> sequence_valid(*final(self)),
    {
        let slot = self.n_slots;
        self.n_slots = self.n_slots + 1;
        self.steps.push(SequenceStep::PlayRandom(slot, choices, settings));
        proof {
            if sequence_valid(*old(self)) {
                assert forall|i: int|
                    0 <= i < self.steps@.len() implies step_slots_below(
                    #[trigger] self.steps@[i],
                    self.n_slots as int,
                ) by {
                    if i < old(self).steps@.len() {
                        assert(step_slots_below(old(self).steps@[i], old(self).n_slots as int));
                    }
                }
            }
        }
        slot
    }

    /// Append a custom-event step.
    pub fn emit_custom_event(&mut self, event: u64)
        ensures
            final(self).steps@ == old(self).steps@.push(SequenceStep::EmitCustomEvent(event)),
            final(self).loop_point == old(self).loop_point,
            final(self).n_slots == old(self).n_slots,
            final(self).groups == old(self).groups,
            sequence_valid(*old(self)) ==> sequence_valid(*final(self)),
    {
        self.steps.push(SequenceStep::EmitCustomEvent(event));
    }

    /// Mark the loop point: reaching the end jumps back to the steps
    /// appended after this call's position.
    pub fn start_loop(&mut self)
        ensures
            final(self).loop_point == Some(old(self).steps@.len() as usize),
            final(self).steps@ == old(self).steps@,
            final(self).n_slots == old(self).n_slots,
            final(self).groups == old(self).groups,
    {
        self.loop_point = Some(self.steps.len());
    }

    /// Whether the sequence can be started: see [`sequence_valid`].
    pub fn validate(&self) -> (r: bool)
        ensures
            r == sequence_valid(*self),
    {
        match self.loop_point {
            Some(lp) => {
                if !(lp < self.steps.len()) {
                    return false;
                }
            },
            None => {},
        }
        let n = self.steps.len();
        let mut i: usize = 0;
        while i < n
            invariant
                i <= n,
                n == self.steps@.len(),
                match self.loop_point {
                    Some(lp) => lp < self.steps@.len(),
                    None => true,
                },
                forall|j: int|
                    0 <= j < i ==> step_slots_below(#[trigger] self.steps@[j], self.n_slots as int),
                forall|j: int|
                    0 <= j < i ==> match #[trigger] self.steps@[j] {
                        SequenceStep::PlayRandom(_, choices, _) => choices@.len() >= 1,
                        _ => true,
                    },
            decreases n - i,
        {
            let ok = match &self.steps[i] {
                SequenceStep::RunCommand(c) => match c {
                    SequenceOutputCommand::PlaySound(slot, _, _) => *slot < self.n_slots,
                    SequenceOutputCommand::PauseInstance(slot, _) => *slot < self.n_slots,
                    SequenceOutputCommand::ResumeInstance(slot, _) => *slot < self.n_slots,
                    SequenceOutputCommand::StopInstance(slot, _) => *slot < self.n_slots,
                    _ => true,
                },
                SequenceStep::PlayRandom(slot, choices, _) => *slot < self.n_slots
                    && choices.len() >= 1,
                _ => true,
            };
            if !ok {
                return false;
            }
            i = i + 1;
        }
        true
    }
}

/// The observable state of a running sequence.
pub struct SeqModel {
    pub own_id: SequenceInstanceId,
    pub steps: Seq<SequenceStep>,
    pub loop_point: Option<usize>,
    pub instance_ids: Seq<InstanceId>,
    pub metronome: Option<MetronomeId>,
    pub groups: Seq<GroupId>,
    pub state: SequenceInstanceState,
    pub position: int,
    pub wait_timer: Option<u64>,
    pub muted: bool,
    pub events: Seq<u64>,
    pub event_cap: int,
    pub device_rate: u32,
}

/// A model is well-formed like the instance it abstracts.
pub open spec fn seq_model_wf(m: SeqModel) -> bool {
    &&& match m.loop_point {
        Some(lp) => lp < m.steps.len(),
        None => true,
    }
    &&& forall|i: int|
        0 <= i < m.steps.len() ==> step_slots_below(
            #[trigger] m.steps[i],
            m.instance_ids.len() as int,
        )
    &&& forall|i: int|
        0 <= i < m.steps.len() ==> match #[trigger] m.steps[i] {
            SequenceStep::PlayRandom(_, choices, _) => choices@.len() >= 1,
            _ => true,
        }
    &&& m.device_rate >= 1
}

/// Fresh ids for every slot: the id bound to slot `k` is the `k`th id
/// minted starting at `next`.
pub open spec fn slots_refreshed(n: int, next: u64) -> Seq<InstanceId> {
    Seq::new(n as nat, |k: int| InstanceId { index: sat_u64(next + k) as u64 })
}

/// The wait timer a step starts with: full for a wait, absent otherwise.
pub open spec fn timer_for_step(s: SequenceStep) -> Option<u64> {
    match s {
        SequenceStep::Wait(_) => Some(FX_ONE_U),
        _ => None,
    }
}

/// Entering step `index`: past the end, a looping sequence rebinds its
/// slots to fresh ids and jumps to the loop point; any other finishes.
pub open spec fn seq_start_step(m: SeqModel, index: int, ids: IdSource) -> (SeqModel, IdSource) {
    if index < m.steps.len() {
        (SeqModel { position: index, wait_timer: timer_for_step(m.steps[index]), ..m }, ids)
    } else {
        match m.loop_point {
            Some(lp) => (
                SeqModel {
                    position: lp as int,
                    wait_timer: timer_for_step(m.steps[lp as int]),
                    instance_ids: slots_refreshed(m.instance_ids.len() as int, ids.next),
                    ..m
                },
                IdSource { next: sat_u64(ids.next + m.instance_ids.len()) as u64 },
            ),
            None => (SeqModel { state: SequenceInstanceState::Finished, ..m }, ids),
        }
    }
}

/// The effective tempo a sequence sees: the bound metronome's tempo while
/// it ticks, zero otherwise or when unbound.
pub open spec fn effective_tempo_of(met: Option<Metronome>) -> i64 {
    match met {
        Some(m) => if m.ticking {
            m.tempo.last_value
        } else {
            0
        },
        None => 0,
    }
}

/// How many output frames a wait step spans; `None` for a wait that can
/// never end (beats with no running metronome).
pub open spec fn wait_frames(d: StepDuration, met: Option<Metronome>, device_rate: u32) -> Option<
    int,
> {
    match d {
        StepDuration::Frames(f) => Some(f as int),
        StepDuration::Beats(b) => {
            let tempo = effective_tempo_of(met);
            if tempo > 0 {
                Some(sat_u64((b * 60 * device_rate) / (tempo as int)))
            } else {
                None
            }
        },
    }
}

/// A slot-addressed command resolved against the current slot bindings.
pub open spec fn resolve_output(
    c: SequenceOutputCommand,
    slots: Seq<InstanceId>,
    own: SequenceInstanceId,
) -> Option<SequenceOutput> {
    match c {
        SequenceOutputCommand::PlaySound(slot, p, s) => if slot < slots.len() {
            Some(SequenceOutput::PlaySound(slots[slot as int], own, p, s))
        } else {
            None
        },
        SequenceOutputCommand::PauseInstance(slot, s) => if slot < slots.len() {
            Some(SequenceOutput::PauseInstance(slots[slot as int], s))
        } else {
            None
        },
        SequenceOutputCommand::ResumeInstance(slot, s) => if slot < slots.len() {
            Some(SequenceOutput::ResumeInstance(slots[slot as int], s))
        } else {
            None
        },
        SequenceOutputCommand::StopInstance(slot, s) => if slot < slots.len() {
            Some(SequenceOutput::StopInstance(slots[slot as int], s))
        } else {
            None
        },
        SequenceOutputCommand::StartMetronome(id) => Some(SequenceOutput::StartMetronome(id)),
        SequenceOutputCommand::PauseMetronome(id) => Some(SequenceOutput::PauseMetronome(id)),
        SequenceOutputCommand::StopMetronome(id) => Some(SequenceOutput::StopMetronome(id)),
    }
}

/// One visit to the current step: the new state, random state, id source,
/// any emitted command, and whether the interpreter keeps draining
/// zero-duration steps this frame.
pub open spec fn seq_once(m: SeqModel, met: Option<Metronome>, rng: AudioRng, ids: IdSource) -> (
    SeqModel,
    AudioRng,
    IdSource,
    Option<SequenceOutput>,
    bool,
) {
    if m.state != SequenceInstanceState::Playing {
        (m, rng, ids, None, false)
    } else if m.position < 0 || m.position >= m.steps.len() {
        (SeqModel { state: SequenceInstanceState::Finished, ..m }, rng, ids, None, false)
    } else {
        match m.steps[m.position] {
            SequenceStep::Wait(d) => match m.wait_timer {
                None => (SeqModel { wait_timer: Some(FX_ONE_U), ..m }, rng, ids, None, false),
                Some(t) => match wait_frames(d, met, m.device_rate) {
                    None => (m, rng, ids, None, false),
                    Some(frames) => if frames == 0 {
                        let stepped = seq_start_step(m, m.position + 1, ids);
                        (stepped.0, rng, stepped.1, None, false)
                    } else {
                        let delta = ceil_div_spec(FX_ONE_U as int, frames);
                        let t2 = sat_u64(t - delta);
                        if t2 == 0 {
                            let stepped = seq_start_step(m, m.position + 1, ids);
                            (stepped.0, rng, stepped.1, None, false)
                        } else {
                            (
                                SeqModel { wait_timer: Some(t2 as u64), ..m },
                                rng,
                                ids,
                                None,
                                false,
                            )
                        }
                    },
                },
            },
            SequenceStep::WaitForInterval(interval) => {
                let passed = match met {
                    Some(mm) => interval_passed_spec(mm, interval),
                    None => false,
                };
                if passed {
                    let stepped = seq_start_step(m, m.position + 1, ids);
                    (stepped.0, rng, stepped.1, None, false)
                } else {
                    (m, rng, ids, None, false)
                }
            },
            SequenceStep::RunCommand(c) => {
                let out = if m.muted {
                    None
                } else {
                    resolve_output(c, m.instance_ids, m.own_id)
                };
                let stepped = seq_start_step(m, m.position + 1, ids);
                (stepped.0, rng, stepped.1, out, true)
            },
            SequenceStep::PlayRandom(slot, choices, settings) => {
                let drawn = crate::rng::rng_next_spec(rng.state);
                let rng2 = AudioRng { state: drawn };
                let pick = drawn as int % choices@.len() as int;
                let out = if m.muted || slot >= m.instance_ids.len() || choices@.len() == 0 {
                    None
                } else {
                    Some(
                        SequenceOutput::PlaySound(
                            m.instance_ids[slot as int],
                            m.own_id,
                            Playable::Sound(choices@[pick]),
                            settings,
                        ),
                    )
                };
                let stepped = seq_start_step(m, m.position + 1, ids);
                (stepped.0, rng2, stepped.1, out, true)
            },
            SequenceStep::EmitCustomEvent(e) => {
                let events = if !m.muted && m.events.len() < m.event_cap {
                    m.events.push(e)
                } else {
                    m.events
                };
                let stepped = seq_start_step(SeqModel { events, ..m }, m.position + 1, ids);
                (stepped.0, rng, stepped.1, None, true)
            },
        }
    }
}

/// Draining the zero-duration steps of one frame, visiting at most `fuel`
/// steps: the final state and everything emitted, in order.
pub open spec fn seq_drain(
    m: SeqModel,
    met: Option<Metronome>,
    rng: AudioRng,
    ids: IdSource,
    fuel: nat,
) -> (SeqModel, AudioRng, IdSource, Seq<SequenceOutput>)
    decreases fuel,
{
    if fuel == 0 {
        (m, rng, ids, Seq::empty())
    } else {
        let once = seq_once(m, met, rng, ids);
        let outs0: Seq<SequenceOutput> = match once.3 {
            Some(o) => seq![o],
            None => Seq::empty(),
        };
        if once.4 {
            let rest = seq_drain(once.0, met, once.1, once.2, (fuel - 1) as nat);
            (rest.0, rest.1, rest.2, outs0 + rest.3)
        } else {
            (once.0, once.1, once.2, outs0)
        }
    }
}

/// The spec view of a possibly absent metronome borrow.
pub open spec fn met_of(m: Option<&Metronome>) -> Option<Metronome> {
    match m {
        Some(mm) => Some(*mm),
        None => None,
    }
}

/// A sequence being played on the audio side.
pub struct SequenceInstance {
    /// This sequence's own id, stamped on the instances it starts.
    pub own_id: SequenceInstanceId,
    /// The steps, in order.
    pub steps: Vec<SequenceStep>,
    /// Where the sequence jumps after its last step, if it loops.
    pub loop_point: Option<usize>,
    /// The concrete instance id bound to each slot in this iteration.
    pub instance_ids: Vec<InstanceId>,
    /// The metronome that beats and intervals resolve against.
    pub metronome: Option<MetronomeId>,
    /// The groups this sequence belongs to.
    pub groups: Vec<GroupId>,
    /// The lifecycle state.
    pub state: SequenceInstanceState,
    /// The current step.
    pub position: usize,
    /// Fraction of the current wait remaining, scaled by
    /// [`crate::fx::FX_ONE`]; present only on a wait step.
    pub wait_timer: Option<u64>,
    /// While muted, commands and events are swallowed.
    pub muted: bool,
    /// Unread custom events, oldest first.
    pub events: Vec<u64>,
    /// The event queue's capacity.
    pub event_cap: usize,
    /// The device sample rate, fixing beat-to-frame conversion.
    pub device_rate: u32,
}

impl SequenceInstance {
    /// The observable state.
    pub open spec fn view(&self) -> SeqModel {
        SeqModel {
            own_id: self.own_id,
            steps: self.steps@,
            loop_point: self.loop_point,
            instance_ids: self.instance_ids@,
            metronome: self.metronome,
            groups: self.groups@,
            state: self.state,
            position: self.position as int,
            wait_timer: self.wait_timer,
            muted: self.muted,
            events: self.events@,
            event_cap: self.event_cap as int,
            device_rate: self.device_rate,
        }
    }

    /// See [`seq_model_wf`].
    pub open spec fn wf(&self) -> bool {
        seq_model_wf(self@)
    }
}

/// Mint one id per slot from the source.
fn refresh_slots(n: usize, ids: &mut IdSource) -> (r: Vec<InstanceId>)
    ensures
        r@ == slots_refreshed(n as int, old(ids).next),
        final(ids).next == sat_u64(old(ids).next + n),
{
    let mut out: Vec<InstanceId> = Vec::new();
    let mut k: usize = 0;
    while k < n
        invariant
            k <= n,
            out@.len() == k,
            forall|j: int|
                0 <= j < k ==> out@[j] == (InstanceId {
                    index: sat_u64(old(ids).next + j) as u64,
                }),
            ids.next == sat_u64(old(ids).next + k),
        decreases n - k,
    {
        out.push(InstanceId::new(ids.mint()));
        k = k + 1;
    }
    proof {
        assert(out@ =~= slots_refreshed(n as int, old(ids).next));
    }
    out
}

impl SequenceInstance {
    /// Start a validated sequence: bind a fresh id to every slot and
    /// enter the first step.
    pub fn start(
        sequence: Sequence,
        own_id: SequenceInstanceId,
        metronome: Option<MetronomeId>,
        event_cap: usize,
        device_rate: u32,
        ids: &mut IdSource,
    ) -> (r: SequenceInstance)
        requires
            sequence_valid(sequence),
            device_rate >= 1,
        ensures
            r.wf(),
            r.own_id == own_id,
            r.steps@ == sequence.steps@,
            r.loop_point == sequence.loop_point,
            r.groups@ == sequence.groups@,
            r.metronome == metronome,
            r.muted == false,
            r.events@ == Seq::<u64>::empty(),
            r.event_cap == event_cap,
            r.device_rate == device_rate,
            r.instance_ids@ == slots_refreshed(sequence.n_slots as int, old(ids).next),
            final(ids).next == sat_u64(old(ids).next + sequence.n_slots),
            sequence.steps@.len() > 0 ==> r.state == SequenceInstanceState::Playing && r.position
                == 0 && r.wait_timer == timer_for_step(sequence.steps@[0]),
            sequence.steps@.len() == 0 ==> r.state == SequenceInstanceState::Finished,
    {
        let n_steps = sequence.steps.len();
        let instance_ids = refresh_slots(sequence.n_slots, ids);
        let mut r = SequenceInstance {
            own_id,
            steps: sequence.steps,
            loop_point: sequence.loop_point,
            instance_ids,
            metronome,
            groups: sequence.groups,
            state: SequenceInstanceState::Playing,
            position: 0,
            wait_timer: None,
            muted: false,
            events: Vec::new(),
            event_cap,
            device_rate,
        };
        proof {
            assert(r.events@ =~= Seq::<u64>::empty());
        }
        if n_steps == 0 {
            r.state = SequenceInstanceState::Finished;
        } else {
            r.wait_timer = match &r.steps[0] {
                SequenceStep::Wait(_) => Some(FX_ONE_U),
                _ => None,
            };
        }
        r
    }

    /// Swallow commands and events from now on.
    pub fn mute(&mut self)
        ensures
            final(self)@ == (SeqModel { muted: true, ..old(self)@ }),
    {
        self.muted = true;
    }

    /// Emit commands and events again.
    pub fn unmute(&mut self)
        ensures
            final(self)@ == (SeqModel { muted: false, ..old(self)@ }),
    {
        self.muted = false;
    }

    /// Freeze until resumed.
    pub fn pause(&mut self)
        ensures
            final(self)@ == (SeqModel { state: SequenceInstanceState::Paused, ..old(self)@ }),
    {
        self.state = SequenceInstanceState::Paused;
    }

    /// Keep advancing.
    pub fn resume(&mut self)
        ensures
            final(self)@ == (SeqModel { state: SequenceInstanceState::Playing, ..old(self)@ }),
    {
        self.state = SequenceInstanceState::Playing;
    }

    /// End the sequence.
    pub fn stop(&mut self)
        ensures
            final(self)@ == (SeqModel { state: SequenceInstanceState::Finished, ..old(self)@ }),
    {
        self.state = SequenceInstanceState::Finished;
    }

    /// Check at run time that a sequence that crossed the command
    /// channel is well-formed and can be run.
    pub fn validate_started(&self) -> (r: bool)
        ensures
            r == (self.wf() && self.steps@.len() < usize::MAX),
    {
        if !(self.steps.len() < usize::MAX) {
            return false;
        }
        if !(self.device_rate >= 1) {
            return false;
        }
        match self.loop_point {
            Some(lp) => {
                if !(lp < self.steps.len()) {
                    return false;
                }
            },
            None => {},
        }
        let n = self.steps.len();
        let n_slots = self.instance_ids.len();
        let mut i: usize = 0;
        while i < n
            invariant
                i <= n,
                n == self.steps@.len(),
                n_slots == self.instance_ids@.len(),
                forall|j: int|
                    0 <= j < i ==> step_slots_below(#[trigger] self.steps@[j], n_slots as int),
                forall|j: int|
                    0 <= j < i ==> match #[trigger] self.steps@[j] {
                        SequenceStep::PlayRandom(_, choices, _) => choices@.len() >= 1,
                        _ => true,
                    },
            decreases n - i,
        {
            let ok = match &self.steps[i] {
                SequenceStep::RunCommand(c) => match c {
                    SequenceOutputCommand::PlaySound(slot, _, _) => *slot < n_slots,
                    SequenceOutputCommand::PauseInstance(slot, _) => *slot < n_slots,
                    SequenceOutputCommand::ResumeInstance(slot, _) => *slot < n_slots,
                    SequenceOutputCommand::StopInstance(slot, _) => *slot < n_slots,
                    _ => true,
                },
                SequenceStep::PlayRandom(slot, choices, _) => *slot < n_slots && choices.len()
                    >= 1,
                _ => true,
            };
            if !ok {
                return false;
            }
            i = i + 1;
        }
        true
    }

    /// Whether the sequence has ended.
    pub fn finished(&self) -> (r: bool)
        ensures
            r == (self.state == SequenceInstanceState::Finished),
    {
        match self.state {
            SequenceInstanceState::Finished => true,
            _ => false,
        }
    }

    /// Hand all unread custom events to the caller, oldest first.
    pub fn take_events(&mut self) -> (r: Vec<u64>)
        ensures
            r@ == old(self).events@,
            final(self)@ == (SeqModel { events: Seq::<u64>::empty(), ..old(self)@ }),
    {
        let mut out: Vec<u64> = Vec::new();
        core::mem::swap(&mut self.events, &mut out);
        proof {
            assert(self.events@ =~= Seq::<u64>::empty());
        }
        out
    }

    /// Enter step `index`, exactly [`seq_start_step`].
    fn start_step_exec(&mut self, index: usize, ids: &mut IdSource)
        requires
            old(self).wf(),
        ensures
            final(self).wf(),
            final(self).steps == old(self).steps,
            (final(self)@, *final(ids)) == seq_start_step(old(self)@, index as int, *old(ids)),
    {
        if index < self.steps.len() {
            self.position = index;
            self.wait_timer = match &self.steps[index] {
                SequenceStep::Wait(_) => Some(FX_ONE_U),
                _ => None,
            };
        } else {
            match self.loop_point {
                Some(lp) => {
                    let n = self.instance_ids.len();
                    self.instance_ids = refresh_slots(n, ids);
                    self.position = lp;
                    self.wait_timer = match &self.steps[lp] {
                        SequenceStep::Wait(_) => Some(FX_ONE_U),
                        _ => None,
                    };
                },
                None => {
                    self.state = SequenceInstanceState::Finished;
                },
            }
        }
    }

    /// One frame of interpretation, exactly [`seq_drain`] with fuel one
    /// more than the step count: run the current step, moving through
    /// consecutive zero-duration steps within the same frame, emitting
    /// commands into `out`.
    #[verifier::rlimit(100)]
    pub fn update(
        &mut self,
        met: Option<&Metronome>,
        rng: &mut AudioRng,
        ids: &mut IdSource,
        out: &mut Vec<SequenceOutput>,
    )
        requires
            old(self).wf(),
            old(self).steps@.len() < usize::MAX,
            match met {
                Some(m) => m.wf(),
                None => true,
            },
        ensures
            final(self).wf(),
            final(self).steps == old(self).steps,
            ({
                let d = seq_drain(
                    old(self)@,
                    met_of(met),
                    *old(rng),
                    *old(ids),
                    (old(self).steps@.len() + 1) as nat,
                );
                final(self)@ == d.0 && *final(rng) == d.1 && *final(ids) == d.2 && final(out)@
                    == old(out)@ + d.3
            }),
    {
        let ghost mo = met_of(met);
        let ghost fuel0 = (old(self).steps@.len() + 1) as nat;
        let mut fuel: usize = self.steps.len() + 1;
        loop
            invariant_except_break
                ({
                    let d0 = seq_drain(old(self)@, mo, *old(rng), *old(ids), fuel0);
                    let d = seq_drain(self@, mo, *rng, *ids, fuel as nat);
                    d0.0 == d.0 && d0.1 == d.1 && d0.2 == d.2 && d0.3 == out@.skip(
                        old(out)@.len() as int,
                    ) + d.3
                }),
            invariant
                self.wf(),
                self.steps == old(self).steps,
                match met {
                    Some(m) => m.wf(),
                    None => true,
                },
                mo == met_of(met),
                fuel as nat <= fuel0,
                out@.len() >= old(out)@.len(),
                out@.subrange(0, old(out)@.len() as int) == old(out)@,
            ensures
                self.wf(),
                self.steps == old(self).steps,
                out@.len() >= old(out)@.len(),
                out@.subrange(0, old(out)@.len() as int) == old(out)@,
                ({
                    let d0 = seq_drain(old(self)@, mo, *old(rng), *old(ids), fuel0);
                    d0.0 == self@ && d0.1 == *rng && d0.2 == *ids && d0.3 == out@.skip(
                        old(out)@.len() as int,
                    )
                }),
            decreases fuel,
        {
            if fuel == 0 {
                break ;
            }
            let ghost pre = self@;
            let ghost pre_rng = *rng;
            let ghost pre_ids = *ids;
            let ghost old_skip = out@.skip(old(out)@.len() as int);
            let playing = match self.state {
                SequenceInstanceState::Playing => true,
                _ => false,
            };
            if !playing {
                proof {
                    assert(seq_once(pre, mo, pre_rng, pre_ids) == (
                        pre,
                        pre_rng,
                        pre_ids,
                        None::<SequenceOutput>,
                        false,
                    ));
                }
                break ;
            }
            if self.position >= self.steps.len() {
                self.state = SequenceInstanceState::Finished;
                proof {
                    assert(seq_once(pre, mo, pre_rng, pre_ids) == (
                        self@,
                        pre_rng,
                        pre_ids,
                        None::<SequenceOutput>,
                        false,
                    ));
                }
                break ;
            }
            let pos = self.position;
            let mut emitted: Option<SequenceOutput> = None;
            match &self.steps[pos] {
                SequenceStep::Wait(d) => {
                    let d = *d;
                    match self.wait_timer {
                        None => {
                            self.wait_timer = Some(FX_ONE_U);
                            proof {
                                assert(seq_once(pre, mo, pre_rng, pre_ids) == (
                                    self@,
                                    pre_rng,
                                    pre_ids,
                                    None::<SequenceOutput>,
                                    false,
                                ));
                            }
                            break ;
                        },
                        Some(t) => {
                            let frames: Option<u64> = match d {
                                StepDuration::Frames(f) => Some(f),
                                StepDuration::Beats(b) => {
                                    let tempo: i64 = match met {
                                        Some(m) => m.effective_tempo(),
                                        None => 0,
                                    };
                                    if tempo > 0 {
                                        proof {
                                            assert(0 <= b * 60 * self.device_rate
                                                <= 0xffff_ffff_ffff_ffff * 60 * 0xffff_ffff)
                                                by (nonlinear_arith)
                                                requires
                                                    0 <= b <= 0xffff_ffff_ffff_ffff,
                                                    0 <= self.device_rate <= 0xffff_ffff;
                                            crate::fx::lemma_div_nonneg_le(
                                                b * 60 * self.device_rate,
                                                tempo as int,
                                            );
                                        }
                                        let wide: u128 = (b as u128) * 60
                                            * (self.device_rate as u128);
                                        let q = wide / (tempo as u128);
                                        if q > u64::MAX as u128 {
                                            Some(u64::MAX)
                                        } else {
                                            Some(q as u64)
                                        }
                                    } else {
                                        None
                                    }
                                },
                            };
                            match frames {
                                None => {
                                    proof {
                                        assert(seq_once(pre, mo, pre_rng, pre_ids) == (
                                            pre,
                                            pre_rng,
                                            pre_ids,
                                            None::<SequenceOutput>,
                                            false,
                                        ));
                                    }
                                    break ;
                                },
                                Some(frames) => {
                                    if frames == 0 {
                                        self.start_step_exec(pos + 1, ids);
                                        proof {
                                            assert(seq_once(pre, mo, pre_rng, pre_ids) == (
                                                self@,
                                                pre_rng,
                                                *ids,
                                                None::<SequenceOutput>,
                                                false,
                                            ));
                                        }
                                        break ;
                                    }
                                    let delta = ceil_div_u64(FX_ONE_U, frames);
                                    let t2 = sat_sub_u64(t, delta);
                                    if t2 == 0 {
                                        self.start_step_exec(pos + 1, ids);
                                        proof {
                                            assert(seq_once(pre, mo, pre_rng, pre_ids) == (
                                                self@,
                                                pre_rng,
                                                *ids,
                                                None::<SequenceOutput>,
                                                false,
                                            ));
                                        }
                                        break ;
                                    }
                                    self.wait_timer = Some(t2);
                                    proof {
                                        assert(seq_once(pre, mo, pre_rng, pre_ids) == (
                                            self@,
                                            pre_rng,
                                            pre_ids,
                                            None::<SequenceOutput>,
                                            false,
                                        ));
                                    }
                                    break ;
                                },
                            }
                        },
                    }
                },
                SequenceStep::WaitForInterval(interval) => {
                    let interval = *interval;
                    let passed = match met {
                        Some(m) => m.interval_passed(interval),
                        None => false,
                    };
                    if passed {
                        self.start_step_exec(pos + 1, ids);
                    }
                    proof {
                        assert(seq_once(pre, mo, pre_rng, pre_ids) == (
                            self@,
                            pre_rng,
                            *ids,
                            None::<SequenceOutput>,
                            false,
                        ));
                    }
                    break ;
                },
                SequenceStep::RunCommand(c) => {
                    let c = *c;
                    if !self.muted {
                        emitted = resolve_output_exec(c, &self.instance_ids, self.own_id);
                    }
                    self.start_step_exec(pos + 1, ids);
                },
                SequenceStep::PlayRandom(slot, choices, settings) => {
                    let slot = *slot;
                    let settings = *settings;
                    let len = choices.len();
                    let pick = rng.below(len as u64);
                    let chosen = choices[pick as usize];
                    if !self.muted {
                        emitted = Some(
                            SequenceOutput::PlaySound(
                                self.instance_ids[slot],
                                self.own_id,
                                Playable::Sound(chosen),
                                settings,
                            ),
                        );
                    }
                    self.start_step_exec(pos + 1, ids);
                },
                SequenceStep::EmitCustomEvent(e) => {
                    let e = *e;
                    if !self.muted && self.events.len() < self.event_cap {
                        self.events.push(e);
                    }
                    self.start_step_exec(pos + 1, ids);
                },
            }
            proof {
                assert(seq_once(pre, mo, pre_rng, pre_ids) == (self@, *rng, *ids, emitted, true));
            }
            match emitted {
                Some(o) => {
                    out.push(o);
                },
                None => {},
            }
            fuel = fuel - 1;
            proof {
                assert(out@.skip(old(out)@.len() as int) =~= old_skip + match emitted {
                    Some(o) => seq![o],
                    None => Seq::<SequenceOutput>::empty(),
                });
            }
        }
        proof {
            assert(out@ =~= old(out)@ + out@.skip(old(out)@.len() as int));
        }
    }
}

/// Resolve a slot-addressed command against the current slot bindings.
fn resolve_output_exec(
    c: SequenceOutputCommand,
    slots: &Vec<InstanceId>,
    own: SequenceInstanceId,
) -> (r: Option<SequenceOutput>)
    ensures
        r == resolve_output(c, slots@, own),
{
    match c {
        SequenceOutputCommand::PlaySound(slot, p, s) => if slot < slots.len() {
            Some(SequenceOutput::PlaySound(slots[slot], own, p, s))
        } else {
            None
        },
        SequenceOutputCommand::PauseInstance(slot, s) => if slot < slots.len() {
            Some(SequenceOutput::PauseInstance(slots[slot], s))
        } else {
            None
        },
        SequenceOutputCommand::ResumeInstance(slot, s) => if slot < slots.len() {
            Some(SequenceOutput::ResumeInstance(slots[slot], s))
        } else {
            None
        },
        SequenceOutputCommand::StopInstance(slot, s) => if slot < slots.len() {
            Some(SequenceOutput::StopInstance(slots[slot], s))
        } else {
            None
        },
        SequenceOutputCommand::StartMetronome(id) => Some(SequenceOutput::StartMetronome(id)),
        SequenceOutputCommand::PauseMetronome(id) => Some(SequenceOutput::PauseMetronome(id)),
        SequenceOutputCommand::StopMetronome(id) => Some(SequenceOutput::StopMetronome(id)),
    }
}


/// The metronome a sequence resolves against, read from the store.
pub open spec fn met_for(m: SeqModel, metros: Seq<(u64, Metronome)>) -> Option<Metronome> {
    match m.metronome {
        Some(mid) => match crate::table::key_idx(metros, mid.index) {
            Some(j) => Some(metros[j].1),
            None => None,
        },
        None => None,
    }
}

/// The models of a stored sequence list.
pub open spec fn seqs_models(entries: Seq<(u64, SequenceInstance)>) -> Seq<(u64, SeqModel)> {
    entries.map_values(|e: (u64, SequenceInstance)| (e.0, e.1@))
}

/// One frame for a list of sequences: each drains its zero-duration
/// steps, emitting in list order; finished sequences leave the list.
pub open spec fn seqs_pass(
    models: Seq<(u64, SeqModel)>,
    metros: Seq<(u64, Metronome)>,
    rng: AudioRng,
    ids: IdSource,
) -> (Seq<(u64, SeqModel)>, AudioRng, IdSource, Seq<SequenceOutput>)
    decreases models.len(),
{
    if models.len() == 0 {
        (Seq::empty(), rng, ids, Seq::empty())
    } else {
        let id = models[0].0;
        let m = models[0].1;
        let d = seq_drain(m, met_for(m, metros), rng, ids, (m.steps.len() + 1) as nat);
        let rest = seqs_pass(models.skip(1), metros, d.1, d.2);
        if d.0.state == SequenceInstanceState::Finished {
            (rest.0, rest.1, rest.2, d.3 + rest.3)
        } else {
            (seq![(id, d.0)] + rest.0, rest.1, rest.2, d.3 + rest.3)
        }
    }
}

/// The store of running sequences on the audio side.
pub struct Sequences {
    table: Table<SequenceInstance>,
}

impl Sequences {
    /// The sequences by id, in insertion order.
    pub closed spec fn view(&self) -> Seq<(u64, SequenceInstance)> {
        self.table.view()
    }

    /// The store's fixed capacity.
    pub closed spec fn spec_cap(&self) -> int {
        self.table.spec_cap()
    }

    /// Table consistent, every sequence well-formed and of bounded size.
    pub open spec fn wf(&self) -> bool {
        &&& self.table_wf()
        &&& forall|i: int|
            0 <= i < self.view().len() ==> (#[trigger] self.view()[i].1).wf()
                && self.view()[i].1.steps@.len() < usize::MAX
    }

    /// The underlying table invariant.
    pub closed spec fn table_wf(&self) -> bool {
        self.table.wf()
    }

    /// An empty store with room for `cap` sequences.
    pub fn new(cap: usize) -> (r: Sequences)
        ensures
            r.view() == Seq::<(u64, SequenceInstance)>::empty(),
            r.spec_cap() == cap,
            r.wf(),
    {
        Sequences { table: Table::new(cap) }
    }

    /// Start a sequence; rejected when the id is taken or the store full.
    pub fn add(&mut self, index: u64, si: SequenceInstance) -> (r: bool)
        requires
            old(self).wf(),
            si.wf(),
            si.steps@.len() < usize::MAX,
        ensures
            final(self).wf(),
            final(self).spec_cap() == old(self).spec_cap(),
            r == (!has_key(old(self).view(), index) && old(self).view().len() < old(
                self,
            ).spec_cap()),
            r ==> seqs_models(final(self).view()) == seqs_models(old(self).view()).push(
                (index, si@),
            ),
            !r ==> final(self).view() == old(self).view(),
    {
        if self.table.contains(index) {
            return false;
        }
        if self.table.len() >= self.table.capacity() {
            return false;
        }
        self.table.push(index, si);
        proof {
            assert(seqs_models(self.view()) =~= seqs_models(old(self).view()).push((index, si@)));
        }
        true
    }

    /// Mute, unmute, pause, resume or stop the sequence with this id.
    /// Unknown ids are ignored.
    pub fn set_lifecycle(&mut self, index: u64, action: SequenceAction)
        requires
            old(self).wf(),
        ensures
            final(self).wf(),
            final(self).spec_cap() == old(self).spec_cap(),
            final(self).view().len() == old(self).view().len(),
            forall|j: int|
                0 <= j < old(self).view().len() ==> (#[trigger] final(self).view()[j]).0 == old(
                    self,
                ).view()[j].0 && final(self).view()[j].1@ == (if old(self).view()[j].0 == index {
                    seq_action_apply(old(self).view()[j].1@, action)
                } else {
                    old(self).view()[j].1@
                }),
    {
        match self.table.idx_of(index) {
            Some(i) => {
                proof {
                    crate::table::lemma_key_idx_unique(self.view(), index, i as int);
                }
                let si = self.table.value_at_mut(i);
                apply_seq_action(si, action);
            },
            None => {},
        }
    }

    /// Apply an action to every sequence belonging to the group.
    pub fn group_lifecycle(&mut self, group: crate::ids::GroupId, action: SequenceAction,
        groups: &crate::group::Groups)
        requires
            old(self).wf(),
            groups.wf(),
        ensures
            final(self).wf(),
            final(self).spec_cap() == old(self).spec_cap(),
            final(self).view().len() == old(self).view().len(),
            forall|j: int|
                0 <= j < old(self).view().len() ==> (#[trigger] final(self).view()[j]).0 == old(
                    self,
                ).view()[j].0 && final(self).view()[j].1@ == (if crate::group::set_reaches(
                    groups.view(),
                    old(self).view()[j].1@.groups,
                    group.index,
                    groups.view().len() as nat,
                ) {
                    seq_action_apply(old(self).view()[j].1@, action)
                } else {
                    old(self).view()[j].1@
                }),
    {
        let n = self.table.len();
        let mut i: usize = 0;
        while i < n
            invariant
                i <= n,
                n == self.view().len(),
                self.view().len() == old(self).view().len(),
                self.spec_cap() == old(self).spec_cap(),
                self.table_wf(),
                groups.wf(),
                forall|j: int|
                    0 <= j < n ==> (#[trigger] self.view()[j].1).wf()
                        && self.view()[j].1.steps@.len() < usize::MAX,
                forall|j: int|
                    i <= j < n ==> #[trigger] self.view()[j] == old(self).view()[j],
                forall|j: int|
                    0 <= j < i ==> (#[trigger] self.view()[j]).0 == old(self).view()[j].0
                        && self.view()[j].1@ == (if crate::group::set_reaches(
                        groups.view(),
                        old(self).view()[j].1@.groups,
                        group.index,
                        groups.view().len() as nat,
                    ) {
                        seq_action_apply(old(self).view()[j].1@, action)
                    } else {
                        old(self).view()[j].1@
                    }),
            decreases n - i,
        {
            let member = {
                let si = self.table.value_at(i);
                groups.set_has_ancestor(&si.groups, group)
            };
            if member {
                let si = self.table.value_at_mut(i);
                apply_seq_action(si, action);
            }
            i = i + 1;
        }
    }

    /// How many custom events the sequence with this id holds unread.
    pub fn events_len(&self, index: u64) -> (r: usize)
        requires
            self.wf(),
        ensures
            match crate::table::key_idx(self.view(), index) {
                Some(i) => r == self.view()[i].1.events@.len(),
                None => r == 0,
            },
    {
        match self.table.get(index) {
            Some(si) => si.events.len(),
            None => 0,
        }
    }

    /// Hand the unread custom events of the sequence with this id to the
    /// caller, oldest first, clearing its queue; every other sequence is
    /// untouched, and an unknown id yields nothing.
    pub fn take_events_of(&mut self, index: u64) -> (r: Vec<u64>)
        requires
            old(self).wf(),
        ensures
            final(self).wf(),
            final(self).spec_cap() == old(self).spec_cap(),
            final(self).view().len() == old(self).view().len(),
            match crate::table::key_idx(old(self).view(), index) {
                Some(i) => r@ == old(self).view()[i].1.events@ && forall|j: int|
                    0 <= j < old(self).view().len() ==> (#[trigger] final(self).view()[j]).0 == old(
                        self,
                    ).view()[j].0 && final(self).view()[j].1@ == (if j == i {
                        SeqModel { events: Seq::<u64>::empty(), ..old(self).view()[j].1@ }
                    } else {
                        old(self).view()[j].1@
                    }),
                None => r@ == Seq::<u64>::empty() && final(self).view() == old(self).view(),
            },
    {
        match self.table.idx_of(index) {
            Some(i) => {
                proof {
                    crate::table::lemma_key_idx_unique(self.view(), index, i as int);
                }
                let si = self.table.value_at_mut(i);
                si.take_events()
            },
            None => {
                let r: Vec<u64> = Vec::new();
                proof {
                    assert(r@ =~= Seq::<u64>::empty());
                }
                r
            },
        }
    }

    /// One frame for every sequence, in insertion order: drain steps,
    /// emit commands into `out`, and drop the sequences that finished.
    /// Exactly [`seqs_pass`].
    pub fn update_all(
        &mut self,
        metros: &crate::metronome::Metronomes,
        rng: &mut AudioRng,
        ids: &mut IdSource,
        out: &mut Vec<SequenceOutput>,
    )
        requires
            old(self).wf(),
            metros.wf(),
        ensures
            final(self).wf(),
            final(self).spec_cap() == old(self).spec_cap(),
            ({
                let d = seqs_pass(
                    seqs_models(old(self).view()),
                    metros.view(),
                    *old(rng),
                    *old(ids),
                );
                seqs_models(final(self).view()) == d.0 && *final(rng) == d.1 && *final(ids) == d.2
                    && final(out)@ == old(out)@ + d.3
            }),
    {
        let ghost models0 = seqs_models(old(self).view());
        let mut entries = self.table.take_entries();
        let ghost orig_entries = entries@;
        let n = entries.len();
        let mut kept: Vec<(u64, SequenceInstance)> = Vec::new();
        let mut i: usize = 0;
        proof {
            assert(models0.skip(0) =~= models0);
            assert(orig_entries.skip(0) =~= orig_entries);
            assert(seqs_models(orig_entries) == models0);
        }
        while i < n
            invariant
                i <= n,
                n == orig_entries.len(),
                entries@ == orig_entries.skip(i as int),
                seqs_models(orig_entries) == models0,
                n == models0.len(),
                metros.wf(),
                keys_unique(orig_entries),
                forall|j: int|
                    0 <= j < n ==> (#[trigger] orig_entries[j].1).wf()
                        && orig_entries[j].1.steps@.len() < usize::MAX,
                forall|j: int|
                    0 <= j < kept@.len() ==> (#[trigger] kept@[j].1).wf()
                        && kept@[j].1.steps@.len() < usize::MAX,
                keys_unique(kept@),
                kept@.len() <= i,
                forall|k: int|
                    0 <= k < kept@.len() ==> has_key(
                        orig_entries.subrange(0, i as int),
                        (#[trigger] kept@[k]).0,
                    ),
                seqs_pass(models0, metros.view(), *old(rng), *old(ids)) == ({
                    let rest = seqs_pass(models0.skip(i as int), metros.view(), *rng, *ids);
                    (
                        seqs_models(kept@) + rest.0,
                        rest.1,
                        rest.2,
                        out@.skip(old(out)@.len() as int) + rest.3,
                    )
                }),
                out@.len() >= old(out)@.len(),
                out@.subrange(0, old(out)@.len() as int) == old(out)@,
            decreases n - i,
        {
            let ghost pre_kept = kept@;
            let ghost pre_out_skip = out@.skip(old(out)@.len() as int);
            let (id, mut si) = entries.remove(0);
            proof {
                assert(orig_entries.skip(i as int)[0] == orig_entries[i as int]);
                assert(entries@ =~= orig_entries.skip(i as int + 1));
            }
            let met: Option<&Metronome> = match si.metronome {
                Some(mid) => metros.get(mid.index),
                None => None,
            };
            proof {
                assert(models0[i as int] == (id, si@));
                assert(met_of(met) == met_for(si@, metros.view()));
            }
            si.update(met, rng, ids, out);
            let fin = si.finished();
            if !fin {
                kept.push((id, si));
            }
            proof {
                assert(models0.skip(i as int)[0] == models0[i as int]);
                assert(models0.skip(i as int).skip(1) =~= models0.skip(i as int + 1));
                let rest = seqs_pass(models0.skip(i as int + 1), metros.view(), *rng, *ids);
                if !fin {
                    assert(seqs_models(kept@) =~= seqs_models(pre_kept).push((id, si@)));
                    assert(seqs_models(kept@) + rest.0 =~= seqs_models(pre_kept) + (seq![(id, si@)]
                        + rest.0));
                }
                assert(out@.skip(old(out)@.len() as int) =~= pre_out_skip + (out@.skip(
                    old(out)@.len() as int,
                ).skip(pre_out_skip.len() as int)));
                assert forall|k: int|
                    0 <= k < kept@.len() implies has_key(
                    orig_entries.subrange(0, i as int + 1),
                    (#[trigger] kept@[k]).0,
                ) by {
                    if k < pre_kept.len() {
                        assert(has_key(orig_entries.subrange(0, i as int), pre_kept[k].0));
                        let j = choose|j: int|
                            0 <= j < orig_entries.subrange(0, i as int).len()
                                && orig_entries.subrange(0, i as int)[j].0 == pre_kept[k].0;
                        assert(orig_entries.subrange(0, i as int + 1)[j].0 == kept@[k].0);
                    } else {
                        assert(orig_entries.subrange(0, i as int + 1)[i as int].0 == id);
                    }
                }
                assert(keys_unique(kept@)) by {
                    if !fin {
                        assert forall|a: int, b: int|
                            0 <= a < b < kept@.len() implies kept@[a].0 != kept@[b].0 by {
                            if b == kept@.len() - 1 {
                                assert(has_key(orig_entries.subrange(0, i as int), kept@[a].0));
                                let j = choose|j: int|
                                    0 <= j < orig_entries.subrange(0, i as int).len()
                                        && orig_entries.subrange(0, i as int)[j].0 == kept@[a].0;
                                assert(orig_entries[j].0 == kept@[a].0);
                                assert(orig_entries[i as int].0 == id);
                            }
                        }
                    }
                }
            }
            i = i + 1;
        }
        proof {
            assert(models0.skip(n as int) =~= Seq::<(u64, SeqModel)>::empty());
            assert(seqs_models(kept@) + Seq::<(u64, SeqModel)>::empty() =~= seqs_models(kept@));
            assert(out@.skip(old(out)@.len() as int) + Seq::<SequenceOutput>::empty() =~= out@.skip(
                old(out)@.len() as int,
            ));
            assert(out@ =~= old(out)@ + out@.skip(old(out)@.len() as int));
        }
        self.table.replace_entries(kept);
        proof {
            assert(seqs_models(self.view()) == seqs_models(kept@));
        }
    }
}

/// A lifecycle action on a sequence.
#[derive(Clone, Copy, Debug, PartialEq, Eq, Structural)]
pub enum SequenceAction {
    Mute,
    Unmute,
    Pause,
    Resume,
    Stop,
}

/// What a lifecycle action does to a sequence.
pub open spec fn seq_action_apply(m: SeqModel, a: SequenceAction) -> SeqModel {
    match a {
        SequenceAction::Mute => SeqModel { muted: true, ..m },
        SequenceAction::Unmute => SeqModel { muted: false, ..m },
        SequenceAction::Pause => SeqModel { state: SequenceInstanceState::Paused, ..m },
        SequenceAction::Resume => SeqModel { state: SequenceInstanceState::Playing, ..m },
        SequenceAction::Stop => SeqModel { state: SequenceInstanceState::Finished, ..m },
    }
}

/// Apply a lifecycle action to one sequence.
fn apply_seq_action(si: &mut SequenceInstance, a: SequenceAction)
    ensures
        final(si)@ == seq_action_apply(old(si)@, a),
{
    match a {
        SequenceAction::Mute => si.mute(),
        SequenceAction::Unmute => si.unmute(),
        SequenceAction::Pause => si.pause(),
        SequenceAction::Resume => si.resume(),
        SequenceAction::Stop => si.stop(),
    }
}


/// Entering a step never moves the id counter backward.
pub proof fn lemma_start_step_ids_monotone(m: SeqModel, index: int, ids: IdSource)
    ensures
        seq_start_step(m, index, ids).1.next >= ids.next,
{
}

/// One step visit never moves the id counter backward.
pub proof fn lemma_seq_once_ids_monotone(
    m: SeqModel,
    met: Option<Metronome>,
    rng: AudioRng,
    ids: IdSource,
)
    ensures
        seq_once(m, met, rng, ids).2.next >= ids.next,
{
    if m.state == SequenceInstanceState::Playing && 0 <= m.position < m.steps.len() {
        match m.steps[m.position] {
            SequenceStep::Wait(_) => {
                lemma_start_step_ids_monotone(m, m.position + 1, ids);
            },
            SequenceStep::WaitForInterval(_) => {
                lemma_start_step_ids_monotone(m, m.position + 1, ids);
            },
            SequenceStep::RunCommand(_) => {
                lemma_start_step_ids_monotone(m, m.position + 1, ids);
            },
            SequenceStep::PlayRandom(_, _, _) => {
                lemma_start_step_ids_monotone(m, m.position + 1, ids);
            },
            SequenceStep::EmitCustomEvent(e) => {
                let events = if !m.muted && m.events.len() < m.event_cap {
                    m.events.push(e)
                } else {
                    m.events
                };
                lemma_start_step_ids_monotone(SeqModel { events, ..m }, m.position + 1, ids);
            },
        }
    }
}

/// Draining a frame never moves the id counter backward.
pub proof fn lemma_seq_drain_ids_monotone(
    m: SeqModel,
    met: Option<Metronome>,
    rng: AudioRng,
    ids: IdSource,
    fuel: nat,
)
    ensures
        seq_drain(m, met, rng, ids, fuel).2.next >= ids.next,
    decreases fuel,
{
    if fuel > 0 {
        let once = seq_once(m, met, rng, ids);
        lemma_seq_once_ids_monotone(m, met, rng, ids);
        if once.4 {
            lemma_seq_drain_ids_monotone(once.0, met, once.1, once.2, (fuel - 1) as nat);
        }
    }
}

/// A whole sequence pass never moves the id counter backward.
pub proof fn lemma_seqs_pass_ids_monotone(
    models: Seq<(u64, SeqModel)>,
    metros: Seq<(u64, Metronome)>,
    rng: AudioRng,
    ids: IdSource,
)
    ensures
        seqs_pass(models, metros, rng, ids).2.next >= ids.next,
    decreases models.len(),
{
    if models.len() > 0 {
        let m = models[0].1;
        let d = seq_drain(m, met_for(m, metros), rng, ids, (m.steps.len() + 1) as nat);
        lemma_seq_drain_ids_monotone(m, met_for(m, metros), rng, ids, (m.steps.len() + 1) as nat);
        lemma_seqs_pass_ids_monotone(models.skip(1), metros, d.1, d.2);
    }
}

/// Slot ids minted on the audio side never collide with ids the control
/// side minted: the two counters hand out indices from disjoint halves
/// of the id space.
pub proof fn lemma_slot_ids_distinct_from_control(n: int, next: u64, k: int, control_id: u64)
    requires
        next >= crate::ids::AUDIO_ID_BASE,
        control_id < crate::ids::AUDIO_ID_BASE,
        0 <= k < n,
    ensures
        slots_refreshed(n, next)[k].index != control_id,
        slots_refreshed(n, next)[k].index >= crate::ids::AUDIO_ID_BASE,
{
}

/// Looping refreshes instance ids: when a looping sequence jumps back to
/// its loop point, every slot is rebound to an id minted after every id
/// the engine had handed out before, so the instances of one loop
/// iteration never share an id with those of an earlier one.
pub proof fn lemma_loop_refreshes_ids(m: SeqModel, ids: IdSource, index: int)
    requires
        index >= m.steps.len(),
        m.loop_point is Some,
        ids.next + m.instance_ids.len() <= u64::MAX,
    ensures
        ({
            let fresh = seq_start_step(m, index, ids).0.instance_ids;
            &&& fresh.len() == m.instance_ids.len()
            &&& forall|k: int| 0 <= k < fresh.len() ==> (#[trigger] fresh[k]).index >= ids.next
            &&& forall|k: int, j: int|
                0 <= k < fresh.len() && 0 <= j < m.instance_ids.len() && (
                #[trigger] m.instance_ids[j]).index < ids.next ==> (#[trigger] fresh[k]).index
                    != m.instance_ids[j].index
        }),
{
    let fresh = seq_start_step(m, index, ids).0.instance_ids;
    assert forall|k: int| 0 <= k < fresh.len() implies (#[trigger] fresh[k]).index >= ids.next by {
        assert(fresh[k] == (InstanceId { index: sat_u64(ids.next + k) as u64 }));
    }
}

} // verus!
