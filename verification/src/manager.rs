//! The control side: builds resources, mints ids, and issues commands to
//! the audio side over the bounded channel.

use vstd::prelude::*;

verus! {

use crate::arrangement::{Arrangement, ArrangementId};
use crate::backend::{AudioManagerSettings, Backend, Resource};
use crate::channel::{
    command_channel, recv_command, recv_resource, resource_channel, send_command, send_resource,
};
use crate::command::{
    Command, GroupCommand, InstanceCommand, MetronomeCommand, MixerCommand, ParameterCommand,
    ResourceCommand, SequenceCommand, StreamCommand,
};
use crate::error::AudioError;
use crate::frame::Frame;
use crate::group::Group;
use crate::ids::{
    AudioStreamId, EffectId, GroupId, IdSource, InstanceId, MetronomeId, ParameterId,
    SequenceInstanceId, SubTrackId,
};
use crate::instance::{
    Instance, InstanceSettings, PauseInstanceSettings, ResumeInstanceSettings,
    StopInstanceSettings,
};
use crate::metronome::{Metronome, MetronomeSettings};
use crate::mixer::{Effect, EffectSettings, TrackId, TrackSettings, effect_wf};
use crate::playable::Playable;
use crate::sequence::{Sequence, SequenceInstance, sequence_valid};
use crate::sound::{Sound, SoundId};
use crate::stream::AudioStream;
use crate::tween::Tween;
use crate::value::Value;

/// The audio-side half: the engine and its ends of the channels.  The
/// host's audio callback drives [`AudioRuntime::process`] once per
/// output frame.
pub struct AudioRuntime {
    /// The engine.
    pub backend: Backend,
    /// The audio end of the command channel.
    pub command_receiver: flume::Receiver<Command>,
    /// The audio end of the unloader channel.
    pub unload_sender: flume::Sender<Resource>,
    /// How many commands one frame drains at most.
    pub num_commands: usize,
}

impl AudioRuntime {
    /// One output frame: drain the queued commands and advance.
    pub fn process(&mut self) -> (r: Frame)
        requires
            old(self).backend.wf(),
        ensures
            final(self).backend.wf(),
            final(self).backend.device_rate == old(self).backend.device_rate,
    {
        let mut commands: Vec<Command> = Vec::new();
        let mut i: usize = 0;
        let limit = self.num_commands;
        while i < limit
            invariant
                self == old(self),
            decreases limit - i,
        {
            match recv_command(&self.command_receiver) {
                Some(c) => {
                    commands.push(c);
                },
                None => {
                    break ;
                },
            }
            i = i + 1;
        }
        let (out, unloaded) = self.backend.process_frame(commands);
        let mut unloaded = unloaded;
        while unloaded.len() > 0
            invariant
                self.backend.wf(),
                self.backend.device_rate == old(self).backend.device_rate,
            decreases unloaded@.len(),
        {
            let v = unloaded.remove(0);
            send_resource(&self.unload_sender, v);
        }
        out
    }
}

/// Plays and manages audio: the handle the application holds.
pub struct AudioManager {
    /// The control end of the command channel.
    pub command_sender: flume::Sender<Command>,
    /// The control end of the unloader channel.
    pub unload_receiver: flume::Receiver<Resource>,
    /// The counter minting every id.
    pub ids: IdSource,
    /// The device sample rate in Hz.
    pub device_rate: u32,
    /// The capacities the engine was built with.
    pub settings: AudioManagerSettings,
}

/// Build a manager and the audio runtime it controls.  The host hands
/// the runtime to its audio callback; commands and retired resources
/// flow through the bounded channels between them.
pub fn create_manager(
    settings: AudioManagerSettings,
    device_rate: u32,
    seed: u64,
) -> (r: (AudioManager, AudioRuntime))
    requires
        device_rate >= 1,
    ensures
        r.1.backend.wf(),
        r.1.backend.device_rate == device_rate,
        r.0.device_rate == device_rate,
        r.0.ids.next == 0,
        r.1.backend.ids.next == crate::ids::AUDIO_ID_BASE,
{
    let (command_sender, command_receiver) = command_channel(settings.num_commands);
    let (unload_sender, unload_receiver) = resource_channel(16);
    let backend = Backend::new(device_rate, &settings, seed);
    let manager = AudioManager {
        command_sender,
        unload_receiver,
        ids: IdSource::new(),
        device_rate,
        settings,
    };
    let runtime = AudioRuntime {
        backend,
        command_receiver,
        unload_sender,
        num_commands: settings.num_commands,
    };
    (manager, runtime)
}

impl AudioManager {
    /// Queue a command, or report the queue full.
    fn push(&self, command: Command) -> (r: Result<(), AudioError>)
        ensures
            r is Ok || r == Err::<(), AudioError>(AudioError::CommandQueueFull),
    {
        if send_command(&self.command_sender, command) {
            Ok(())
        } else {
            Err(AudioError::CommandQueueFull)
        }
    }

    /// Register a sound and hand back its id.
    pub fn add_sound(&mut self, sound: Sound) -> (r: Result<SoundId, AudioError>)
        requires
            sound.wf(),
            old(self).device_rate >= 1,
        ensures
            *final(self) == (AudioManager { ids: final(self).ids, ..*old(self) }),
            final(self).ids.next == crate::fx::sat_u64(old(self).ids.next + 1),
            match r {
                Ok(id) => id.index == old(self).ids.next && id.duration >= 0,
                Err(_) => true,
            },
    {
        let index = self.ids.mint();
        let id = SoundId::new(index, &sound, self.device_rate);
        proof {
            crate::fx::lemma_div_nonneg_le(
                sound.frames@.len() * crate::fx::FX_ONE * self.device_rate,
                sound.sample_rate as int,
            );
        }
        match self.push(Command::Resource(ResourceCommand::AddSound(id, sound))) {
            Ok(()) => Ok(id),
            Err(e) => Err(e),
        }
    }

    /// Unload a sound; its memory comes back through the unloader.
    pub fn remove_sound(&self, id: SoundId) -> (r: Result<(), AudioError>) {
        self.push(Command::Resource(ResourceCommand::RemoveSound(id)))
    }

    /// Register an arrangement and hand back its id.
    pub fn add_arrangement(&mut self, arrangement: Arrangement) -> (r: Result<
        ArrangementId,
        AudioError,
    >)
        ensures
            *final(self) == (AudioManager { ids: final(self).ids, ..*old(self) }),
            final(self).ids.next == crate::fx::sat_u64(old(self).ids.next + 1),
            match r {
                Ok(id) => id.index == old(self).ids.next && id.duration == arrangement.duration,
                Err(_) => true,
            },
    {
        let index = self.ids.mint();
        let id = ArrangementId::new(index, &arrangement);
        match self.push(Command::Resource(ResourceCommand::AddArrangement(id, arrangement))) {
            Ok(()) => Ok(id),
            Err(e) => Err(e),
        }
    }

    /// Unload an arrangement.
    pub fn remove_arrangement(&self, id: ArrangementId) -> (r: Result<(), AudioError>) {
        self.push(Command::Resource(ResourceCommand::RemoveArrangement(id)))
    }

    /// Start an instance of a playable.
    pub fn play(&mut self, playable: Playable, settings: InstanceSettings) -> (r: Result<
        InstanceId,
        AudioError,
    >)
        requires
            settings.volume.wf(),
            settings.pitch.wf(),
            settings.panning.wf(),
            playable.spec_duration() >= 0,
        ensures
            *final(self) == (AudioManager { ids: final(self).ids, ..*old(self) }),
            final(self).ids.next == crate::fx::sat_u64(old(self).ids.next + 1),
            match r {
                Ok(id) => id.index == old(self).ids.next,
                Err(_) => true,
            },
    {
        let index = self.ids.mint();
        let id = InstanceId::new(index);
        let instance = Instance::new(playable, None, settings);
        match self.push(Command::Instance(InstanceCommand::Play(id, instance))) {
            Ok(()) => Ok(id),
            Err(e) => Err(e),
        }
    }

    /// Pause one instance.
    pub fn pause_instance(&self, id: InstanceId, settings: PauseInstanceSettings) -> (r: Result<
        (),
        AudioError,
    >) {
        self.push(Command::Instance(InstanceCommand::PauseInstance(id, settings)))
    }

    /// Resume one instance.
    pub fn resume_instance(&self, id: InstanceId, settings: ResumeInstanceSettings) -> (r: Result<
        (),
        AudioError,
    >) {
        self.push(Command::Instance(InstanceCommand::ResumeInstance(id, settings)))
    }

    /// Stop one instance.
    pub fn stop_instance(&self, id: InstanceId, settings: StopInstanceSettings) -> (r: Result<
        (),
        AudioError,
    >) {
        self.push(Command::Instance(InstanceCommand::StopInstance(id, settings)))
    }

    /// Pause every instance of a playable.
    pub fn pause_instances_of(&self, p: Playable, settings: PauseInstanceSettings) -> (r: Result<
        (),
        AudioError,
    >) {
        self.push(Command::Instance(InstanceCommand::PauseInstancesOf(p, settings)))
    }

    /// Resume every instance of a playable.
    pub fn resume_instances_of(&self, p: Playable, settings: ResumeInstanceSettings) -> (r: Result<
        (),
        AudioError,
    >) {
        self.push(Command::Instance(InstanceCommand::ResumeInstancesOf(p, settings)))
    }

    /// Stop every instance of a playable.
    pub fn stop_instances_of(&self, p: Playable, settings: StopInstanceSettings) -> (r: Result<
        (),
        AudioError,
    >) {
        self.push(Command::Instance(InstanceCommand::StopInstancesOf(p, settings)))
    }

    /// Pause everything under a group: its instances and its sequences.
    pub fn pause_group(&self, g: GroupId, settings: PauseInstanceSettings) -> (r: Result<
        (),
        AudioError,
    >) {
        match self.push(Command::Instance(InstanceCommand::PauseGroup(g, settings))) {
            Ok(()) => self.push(Command::Sequence(SequenceCommand::PauseGroup(g))),
            Err(e) => Err(e),
        }
    }

    /// Resume everything under a group.
    pub fn resume_group(&self, g: GroupId, settings: ResumeInstanceSettings) -> (r: Result<
        (),
        AudioError,
    >) {
        match self.push(Command::Instance(InstanceCommand::ResumeGroup(g, settings))) {
            Ok(()) => self.push(Command::Sequence(SequenceCommand::ResumeGroup(g))),
            Err(e) => Err(e),
        }
    }

    /// Stop everything under a group.
    pub fn stop_group(&self, g: GroupId, settings: StopInstanceSettings) -> (r: Result<
        (),
        AudioError,
    >) {
        match self.push(Command::Instance(InstanceCommand::StopGroup(g, settings))) {
            Ok(()) => self.push(Command::Sequence(SequenceCommand::StopGroup(g))),
            Err(e) => Err(e),
        }
    }

    /// Rebind one instance's volume source.
    pub fn set_instance_volume(&self, id: InstanceId, v: Value) -> (r: Result<(), AudioError>)
        requires
            v.wf(),
    {
        self.push(Command::Instance(InstanceCommand::SetInstanceVolume(id, v)))
    }

    /// Rebind one instance's pitch source.
    pub fn set_instance_pitch(&self, id: InstanceId, v: Value) -> (r: Result<(), AudioError>)
        requires
            v.wf(),
    {
        self.push(Command::Instance(InstanceCommand::SetInstancePitch(id, v)))
    }

    /// Rebind one instance's panning source.
    pub fn set_instance_panning(&self, id: InstanceId, v: Value) -> (r: Result<(), AudioError>)
        requires
            v.wf(),
    {
        self.push(Command::Instance(InstanceCommand::SetInstancePanning(id, v)))
    }

    /// Move one instance's position by an offset.
    pub fn seek_instance(&self, id: InstanceId, offset: i64) -> (r: Result<(), AudioError>) {
        self.push(Command::Instance(InstanceCommand::SeekInstance(id, offset)))
    }

    /// Jump one instance to a position.
    pub fn seek_instance_to(&self, id: InstanceId, position: i64) -> (r: Result<(), AudioError>) {
        self.push(Command::Instance(InstanceCommand::SeekInstanceTo(id, position)))
    }

    /// Create a parameter at a starting value.
    pub fn add_parameter(&mut self, value: i64) -> (r: Result<ParameterId, AudioError>)
        ensures
            *final(self) == (AudioManager { ids: final(self).ids, ..*old(self) }),
            final(self).ids.next == crate::fx::sat_u64(old(self).ids.next + 1),
            match r {
                Ok(id) => id.index == old(self).ids.next,
                Err(_) => true,
            },
    {
        let index = self.ids.mint();
        let id = ParameterId::new(index);
        match self.push(Command::Parameter(ParameterCommand::AddParameter(id, value))) {
            Ok(()) => Ok(id),
            Err(e) => Err(e),
        }
    }

    /// Remove a parameter.
    pub fn remove_parameter(&self, id: ParameterId) -> (r: Result<(), AudioError>) {
        self.push(Command::Parameter(ParameterCommand::RemoveParameter(id)))
    }

    /// Move a parameter toward a target, optionally over a tween.
    pub fn set_parameter(&self, id: ParameterId, target: i64, tween: Option<Tween>) -> (r: Result<
        (),
        AudioError,
    >) {
        self.push(Command::Parameter(ParameterCommand::SetParameter(id, target, tween)))
    }

    /// Create a mixer sub-track.
    pub fn add_sub_track(&mut self, settings: TrackSettings) -> (r: Result<SubTrackId, AudioError>)
        ensures
            *final(self) == (AudioManager { ids: final(self).ids, ..*old(self) }),
            final(self).ids.next == crate::fx::sat_u64(old(self).ids.next + 1),
            match r {
                Ok(id) => id.index == old(self).ids.next,
                Err(_) => true,
            },
    {
        let index = self.ids.mint();
        let id = SubTrackId::new(index);
        match self.push(Command::Mixer(MixerCommand::AddSubTrack(id, settings))) {
            Ok(()) => Ok(id),
            Err(e) => Err(e),
        }
    }

    /// Remove a mixer sub-track.
    pub fn remove_sub_track(&self, id: SubTrackId) -> (r: Result<(), AudioError>) {
        self.push(Command::Mixer(MixerCommand::RemoveSubTrack(id)))
    }

    /// Add an effect to a track's chain.
    pub fn add_effect(&mut self, track: TrackId, effect: Effect, settings: EffectSettings) -> (r:
        Result<EffectId, AudioError>)
        requires
            effect_wf(effect),
            settings.mix.wf(),
        ensures
            *final(self) == (AudioManager { ids: final(self).ids, ..*old(self) }),
            final(self).ids.next == crate::fx::sat_u64(old(self).ids.next + 1),
            match r {
                Ok(id) => id.index == old(self).ids.next,
                Err(_) => true,
            },
    {
        let index = self.ids.mint();
        let id = EffectId::new(index);
        match self.push(Command::Mixer(MixerCommand::AddEffect(track, id, effect, settings))) {
            Ok(()) => Ok(id),
            Err(e) => Err(e),
        }
    }

    /// Remove an effect from a track's chain.
    pub fn remove_effect(&self, track: TrackId, id: EffectId) -> (r: Result<(), AudioError>) {
        self.push(Command::Mixer(MixerCommand::RemoveEffect(track, id)))
    }

    /// Create a group under the given parent groups.  A group naming its
    /// own fresh id among its parents is the one cycle detectable here
    /// and is rejected; the audio side additionally rejects parents that
    /// do not exist yet, so the group graph stays acyclic.
    pub fn add_group(&mut self, parents: Vec<GroupId>) -> (r: Result<GroupId, AudioError>)
        ensures
            *final(self) == (AudioManager { ids: final(self).ids, ..*old(self) }),
            match r {
                Ok(id) => id.index == old(self).ids.next && final(self).ids.next
                    == crate::fx::sat_u64(old(self).ids.next + 1),
                Err(e) => e == AudioError::GroupCycle ==> (exists|i: int|
                    0 <= i < parents@.len() && (#[trigger] parents@[i]).index == old(
                        self,
                    ).ids.next),
            },
            (exists|i: int|
                0 <= i < parents@.len() && (#[trigger] parents@[i]).index == old(self).ids.next)
                ==> r == Err::<GroupId, AudioError>(AudioError::GroupCycle),
    {
        let index = self.ids.mint();
        let id = GroupId::new(index);
        let n = parents.len();
        let mut i: usize = 0;
        while i < n
            invariant
                *self == (AudioManager { ids: self.ids, ..*old(self) }),
                id.index == old(self).ids.next,
                self.ids.next == crate::fx::sat_u64(old(self).ids.next + 1),
                i <= n,
                n == parents@.len(),
                forall|j: int| 0 <= j < i ==> (#[trigger] parents@[j]).index != id.index,
            decreases n - i,
        {
            if parents[i].index == id.index {
                proof {
                    assert((#[trigger] parents@[i as int]).index == id.index);
                }
                return Err(AudioError::GroupCycle);
            }
            i = i + 1;
        }
        match self.push(Command::Group(GroupCommand::AddGroup(id, Group::new(parents)))) {
            Ok(()) => Ok(id),
            Err(e) => Err(e),
        }
    }

    /// Remove a group.
    pub fn remove_group(&self, id: GroupId) -> (r: Result<(), AudioError>) {
        self.push(Command::Group(GroupCommand::RemoveGroup(id)))
    }

    /// Create a metronome.
    pub fn add_metronome(&mut self, settings: MetronomeSettings) -> (r: Result<
        MetronomeId,
        AudioError,
    >)
        requires
            settings.tempo.wf(),
            old(self).device_rate >= 1,
        ensures
            *final(self) == (AudioManager { ids: final(self).ids, ..*old(self) }),
            final(self).ids.next == crate::fx::sat_u64(old(self).ids.next + 1),
            match r {
                Ok(id) => id.index == old(self).ids.next,
                Err(_) => true,
            },
    {
        let index = self.ids.mint();
        let id = MetronomeId::new(index);
        let metronome = Metronome::new(settings, self.device_rate);
        match self.push(Command::Metronome(MetronomeCommand::AddMetronome(id, metronome))) {
            Ok(()) => Ok(id),
            Err(e) => Err(e),
        }
    }

    /// Remove a metronome.
    pub fn remove_metronome(&self, id: MetronomeId) -> (r: Result<(), AudioError>) {
        self.push(Command::Metronome(MetronomeCommand::RemoveMetronome(id)))
    }

    /// Rebind a metronome's tempo source.
    pub fn set_metronome_tempo(&self, id: MetronomeId, tempo: Value) -> (r: Result<(), AudioError>)
        requires
            tempo.wf(),
    {
        self.push(Command::Metronome(MetronomeCommand::SetMetronomeTempo(id, tempo)))
    }

    /// Start a metronome ticking.
    pub fn start_metronome(&self, id: MetronomeId) -> (r: Result<(), AudioError>) {
        self.push(Command::Metronome(MetronomeCommand::StartMetronome(id)))
    }

    /// Pause a metronome.
    pub fn pause_metronome(&self, id: MetronomeId) -> (r: Result<(), AudioError>) {
        self.push(Command::Metronome(MetronomeCommand::PauseMetronome(id)))
    }

    /// Stop a metronome and rewind it.
    pub fn stop_metronome(&self, id: MetronomeId) -> (r: Result<(), AudioError>) {
        self.push(Command::Metronome(MetronomeCommand::StopMetronome(id)))
    }

    /// Validate and start a sequence, optionally bound to a metronome.
    pub fn start_sequence(&mut self, sequence: Sequence, metronome: Option<MetronomeId>) -> (r:
        Result<SequenceInstanceId, AudioError>)
        requires
            old(self).device_rate >= 1,
        ensures
            *final(self) == (AudioManager { ids: final(self).ids, ..*old(self) }),
            r is Ok ==> sequence_valid(sequence),
            !sequence_valid(sequence) <==> r == Err::<SequenceInstanceId, AudioError>(
                AudioError::InvalidSequence,
            ),
            r is Ok ==> final(self).ids.next == crate::fx::sat_u64(
                crate::fx::sat_u64(old(self).ids.next + 1) + sequence.n_slots,
            ),
    {
        if !sequence.validate() {
            return Err(AudioError::InvalidSequence);
        }
        let index = self.ids.mint();
        let id = SequenceInstanceId::new(index);
        let event_cap = self.settings.num_commands;
        let si = SequenceInstance::start(
            sequence,
            id,
            metronome,
            event_cap,
            self.device_rate,
            &mut self.ids,
        );
        match self.push(Command::Sequence(SequenceCommand::StartSequenceInstance(id, si))) {
            Ok(()) => Ok(id),
            Err(e) => Err(e),
        }
    }

    /// Mute a sequence.
    pub fn mute_sequence(&self, id: SequenceInstanceId) -> (r: Result<(), AudioError>) {
        self.push(Command::Sequence(SequenceCommand::MuteSequenceInstance(id)))
    }

    /// Unmute a sequence.
    pub fn unmute_sequence(&self, id: SequenceInstanceId) -> (r: Result<(), AudioError>) {
        self.push(Command::Sequence(SequenceCommand::UnmuteSequenceInstance(id)))
    }

    /// Pause a sequence.
    pub fn pause_sequence(&self, id: SequenceInstanceId) -> (r: Result<(), AudioError>) {
        self.push(Command::Sequence(SequenceCommand::PauseSequenceInstance(id)))
    }

    /// Resume a sequence.
    pub fn resume_sequence(&self, id: SequenceInstanceId) -> (r: Result<(), AudioError>) {
        self.push(Command::Sequence(SequenceCommand::ResumeSequenceInstance(id)))
    }

    /// Stop a sequence.
    pub fn stop_sequence(&self, id: SequenceInstanceId) -> (r: Result<(), AudioError>) {
        self.push(Command::Sequence(SequenceCommand::StopSequenceInstance(id)))
    }

    /// Register an audio stream feeding the given track.
    pub fn add_stream(&mut self, track: TrackId, stream: AudioStream) -> (r: Result<
        AudioStreamId,
        AudioError,
    >)
        ensures
            *final(self) == (AudioManager { ids: final(self).ids, ..*old(self) }),
            final(self).ids.next == crate::fx::sat_u64(old(self).ids.next + 1),
            match r {
                Ok(id) => id.index == old(self).ids.next,
                Err(_) => true,
            },
    {
        let index = self.ids.mint();
        let id = AudioStreamId::new(index);
        match self.push(Command::Stream(StreamCommand::AddStream(id, track, stream))) {
            Ok(()) => Ok(id),
            Err(e) => Err(e),
        }
    }

    /// Remove an audio stream.
    pub fn remove_stream(&self, id: AudioStreamId) -> (r: Result<(), AudioError>) {
        self.push(Command::Stream(StreamCommand::RemoveStream(id)))
    }

    /// Drop resources the audio side has retired, freeing their memory
    /// on this thread.  Returns how many were freed this call.
    pub fn free_unused_resources(&self) -> (r: usize) {
        let mut freed: usize = 0;
        let mut budget: usize = 64;
        while budget > 0
            invariant
                true,
            decreases budget,
        {
            match recv_resource(&self.unload_receiver) {
                Some(_) => {
                    if freed < usize::MAX {
                        freed = freed + 1;
                    }
                },
                None => {
                    break ;
                },
            }
            budget = budget - 1;
        }
        freed
    }
}

} // verus!
