//! The audio-side engine: one object advanced once per output frame.

use vstd::prelude::*;

verus! {

use crate::arrangement::Arrangement;
use crate::command::{
    Command, GroupCommand, InstanceCommand, MetronomeCommand, MixerCommand, ParameterCommand,
    ResourceCommand, SequenceCommand, StreamCommand,
};
use crate::frame::Frame;
use crate::group::Groups;
use crate::ids::IdSource;
use crate::instance::Instance;
use crate::instances::{Instances, command_values_wf};
use crate::metronome::{Metronome, Metronomes};
use crate::mixer::{Mixer, mixer_out};
use crate::parameter::Parameters;
use crate::playable::Playables;
use crate::rng::AudioRng;
use crate::sequence::{SequenceAction, SequenceOutput, Sequences};
use crate::sound::Sound;
use crate::stream::{AudioStream, StreamEntry, Streams};

/// Capacities fixed at construction, one per store.
#[derive(Clone, Copy, Debug, PartialEq, Eq, Structural)]
pub struct AudioManagerSettings {
    /// How many commands can wait between the threads.
    pub num_commands: usize,
    /// The most sounds loaded at a time.
    pub num_sounds: usize,
    /// The most arrangements loaded at a time.
    pub num_arrangements: usize,
    /// The most parameters at a time.
    pub num_parameters: usize,
    /// The most instances playing at a time.
    pub num_instances: usize,
    /// The most sequences running at a time.
    pub num_sequences: usize,
    /// The most mixer sub-tracks at a time.
    pub num_tracks: usize,
    /// The most effects per mixer track.
    pub num_effects_per_track: usize,
    /// The most groups at a time.
    pub num_groups: usize,
    /// The most audio streams at a time.
    pub num_streams: usize,
    /// The most metronomes at a time.
    pub num_metronomes: usize,
}

impl AudioManagerSettings {
    /// The default capacities.
    pub fn default() -> (r: AudioManagerSettings)
        ensures
            r.num_commands == 100,
            r.num_instances == 100,
    {
        AudioManagerSettings {
            num_commands: 100,
            num_sounds: 100,
            num_arrangements: 100,
            num_parameters: 100,
            num_instances: 100,
            num_sequences: 25,
            num_tracks: 100,
            num_effects_per_track: 10,
            num_groups: 100,
            num_streams: 100,
            num_metronomes: 100,
        }
    }
}

/// A resource retired from the audio side, handed back to the control
/// side so its memory is released off the audio thread.
pub enum Resource {
    Sound(Sound),
    Arrangement(Arrangement),
    Metronome(Metronome),
    Stream(StreamEntry),
}

/// The audio-side engine.
pub struct Backend {
    pub device_rate: u32,
    pub playables: Playables,
    pub instances: Instances,
    pub parameters: Parameters,
    pub mixer: Mixer,
    pub groups: Groups,
    pub metronomes: Metronomes,
    pub sequences: Sequences,
    pub streams: Streams,
    pub rng: AudioRng,
    pub ids: IdSource,
}

impl Backend {
    /// Every store consistent.
    pub open spec fn wf(&self) -> bool {
        &&& self.playables.wf()
        &&& self.instances.wf()
        &&& self.parameters.wf()
        &&& self.mixer.wf()
        &&& self.groups.wf()
        &&& self.metronomes.wf()
        &&& self.sequences.wf()
        &&& self.streams.wf()
        &&& self.device_rate >= 1
        &&& self.playables.device_rate == self.device_rate
        &&& self.ids.next >= crate::ids::AUDIO_ID_BASE
    }

    /// A fresh engine at the device sample rate, with the given
    /// capacities and audio-thread random seed.
    pub fn new(device_rate: u32, settings: &AudioManagerSettings, seed: u64) -> (r: Backend)
        requires
            device_rate >= 1,
        ensures
            r.wf(),
            r.device_rate == device_rate,
            r.instances.view().len() == 0,
            r.instances.spec_cap() == settings.num_instances,
            r.sequences.view().len() == 0,
            r.streams.view().len() == 0,
            r.mixer@.subs.len() == 0,
            r.mixer@.main.slots.len() == 0,
            r.mixer@.main.input == (Frame { left: 0i64, right: 0i64 }),
            r.parameters.view().len() == 0,
            r.metronomes.view().len() == 0,
            r.ids.next == crate::ids::AUDIO_ID_BASE,
    {
        Backend {
            device_rate,
            playables: Playables::new(settings.num_sounds, settings.num_arrangements, device_rate),
            instances: Instances::new(settings.num_instances),
            parameters: Parameters::new(settings.num_parameters),
            mixer: Mixer::new(settings.num_tracks, settings.num_effects_per_track),
            groups: Groups::new(settings.num_groups),
            metronomes: Metronomes::new(settings.num_metronomes),
            sequences: Sequences::new(settings.num_sequences),
            streams: Streams::new(settings.num_streams),
            rng: AudioRng::new(seed),
            ids: IdSource::starting_at(crate::ids::AUDIO_ID_BASE),
        }
    }

    /// Dispatch one command to its subsystem, exactly [`command_rel`].
    /// A retired resource comes back for unloading off the audio thread.
    pub fn run_command(&mut self, command: Command) -> (unloaded: Option<Resource>)
        requires
            old(self).wf(),
        ensures
            final(self).wf(),
            final(self).device_rate == old(self).device_rate,
            command_rel(*old(self), *final(self), command, unloaded),
    {
        match command {
            Command::Resource(c) => match c {
                ResourceCommand::AddSound(id, sound) => {
                    if sound.sample_rate >= 1 {
                        self.playables.add_sound(id, sound);
                    }
                    None
                },
                ResourceCommand::RemoveSound(id) => {
                    match self.playables.remove_sound(id.index) {
                        Some(s) => Some(Resource::Sound(s)),
                        None => None,
                    }
                },
                ResourceCommand::AddArrangement(id, arrangement) => {
                    self.playables.add_arrangement(id, arrangement);
                    None
                },
                ResourceCommand::RemoveArrangement(id) => {
                    match self.playables.remove_arrangement(id.index) {
                        Some(a) => Some(Resource::Arrangement(a)),
                        None => None,
                    }
                },
            },
            Command::Instance(c) => {
                let ok = check_command_values(&c);
                if ok {
                    self.instances.run_command(c, &mut self.playables, &self.groups);
                }
                None
            },
            Command::Metronome(c) => match c {
                MetronomeCommand::AddMetronome(id, m) => {
                    if m.tempo.value.wf_exec() && m.device_rate >= 1 {
                        self.metronomes.add(id.index, m);
                    }
                    None
                },
                MetronomeCommand::RemoveMetronome(id) => {
                    match self.metronomes.remove(id.index) {
                        Some(m) => Some(Resource::Metronome(m)),
                        None => None,
                    }
                },
                MetronomeCommand::SetMetronomeTempo(id, tempo) => {
                    if tempo.wf_exec() {
                        match self.metronomes.idx_of(id.index) {
                            Some(i) => {
                                let m = self.metronomes.at_mut(i);
                                m.set_tempo(tempo);
                            },
                            None => {},
                        }
                    }
                    None
                },
                MetronomeCommand::StartMetronome(id) => {
                    match self.metronomes.idx_of(id.index) {
                        Some(i) => {
                            let m = self.metronomes.at_mut(i);
                            m.start();
                        },
                        None => {},
                    }
                    None
                },
                MetronomeCommand::PauseMetronome(id) => {
                    match self.metronomes.idx_of(id.index) {
                        Some(i) => {
                            let m = self.metronomes.at_mut(i);
                            m.pause();
                        },
                        None => {},
                    }
                    None
                },
                MetronomeCommand::StopMetronome(id) => {
                    match self.metronomes.idx_of(id.index) {
                        Some(i) => {
                            let m = self.metronomes.at_mut(i);
                            m.stop();
                        },
                        None => {},
                    }
                    None
                },
            },
            Command::Sequence(c) => match c {
                SequenceCommand::StartSequenceInstance(id, si) => {
                    if si.validate_started() {
                        self.sequences.add(id.index, si);
                    }
                    None
                },
                SequenceCommand::MuteSequenceInstance(id) => {
                    self.sequences.set_lifecycle(id.index, SequenceAction::Mute);
                    None
                },
                SequenceCommand::UnmuteSequenceInstance(id) => {
                    self.sequences.set_lifecycle(id.index, SequenceAction::Unmute);
                    None
                },
                SequenceCommand::PauseSequenceInstance(id) => {
                    self.sequences.set_lifecycle(id.index, SequenceAction::Pause);
                    None
                },
                SequenceCommand::ResumeSequenceInstance(id) => {
                    self.sequences.set_lifecycle(id.index, SequenceAction::Resume);
                    None
                },
                SequenceCommand::StopSequenceInstance(id) => {
                    self.sequences.set_lifecycle(id.index, SequenceAction::Stop);
                    None
                },
                SequenceCommand::PauseGroup(g) => {
                    self.sequences.group_lifecycle(g, SequenceAction::Pause, &self.groups);
                    None
                },
                SequenceCommand::ResumeGroup(g) => {
                    self.sequences.group_lifecycle(g, SequenceAction::Resume, &self.groups);
                    None
                },
                SequenceCommand::StopGroup(g) => {
                    self.sequences.group_lifecycle(g, SequenceAction::Stop, &self.groups);
                    None
                },
            },
            Command::Mixer(c) => match c {
                MixerCommand::AddSubTrack(id, settings) => {
                    self.mixer.add_sub_track(id, settings);
                    None
                },
                MixerCommand::RemoveSubTrack(id) => {
                    self.mixer.remove_sub_track(id);
                    None
                },
                MixerCommand::AddEffect(track, id, effect, settings) => {
                    if effect_values_ok(&effect) && settings.mix.wf_exec() {
                        match track {
                            crate::mixer::TrackId::Main => {
                                self.mixer.main.add_effect(id, effect, settings);
                            },
                            crate::mixer::TrackId::Sub(sid) => {
                                proof {
                                    self.mixer.lemma_sub_keys();
                                }
                                match self.mixer.sub_tracks.idx_of(sid.index) {
                                    Some(i) => {
                                        proof {
                                            crate::table::lemma_key_idx_unique(
                                                self.mixer.sub_tracks.view(),
                                                sid.index,
                                                i as int,
                                            );
                                            crate::table::lemma_key_idx_unique(
                                                self.mixer@.subs,
                                                sid.index,
                                                i as int,
                                            );
                                        }
                                        let t = self.mixer.sub_tracks.value_at_mut(i);
                                        t.add_effect(id, effect, settings);
                                        proof {
                                            assert(self.mixer.wf());
                                            assert forall|j: int|
                                                0 <= j < old(self).mixer@.subs.len() && j
                                                    != i as int implies #[trigger] self.mixer@.subs[j]
                                                == old(self).mixer@.subs[j] by {}
                                        }
                                    },
                                    None => {
                                        proof {
                                            assert(crate::table::key_idx(
                                                old(self).mixer@.subs,
                                                sid.index,
                                            ) is None);
                                        }
                                    },
                                }
                            },
                        }
                    }
                    None
                },
                MixerCommand::RemoveEffect(track, id) => {
                    match track {
                        crate::mixer::TrackId::Main => {
                            self.mixer.main.remove_effect(id);
                        },
                        crate::mixer::TrackId::Sub(sid) => {
                            proof {
                                self.mixer.lemma_sub_keys();
                            }
                            match self.mixer.sub_tracks.idx_of(sid.index) {
                                Some(i) => {
                                    proof {
                                        crate::table::lemma_key_idx_unique(
                                            self.mixer.sub_tracks.view(),
                                            sid.index,
                                            i as int,
                                        );
                                        crate::table::lemma_key_idx_unique(
                                            self.mixer@.subs,
                                            sid.index,
                                            i as int,
                                        );
                                    }
                                    let t = self.mixer.sub_tracks.value_at_mut(i);
                                    t.remove_effect(id);
                                    proof {
                                        assert(self.mixer.wf());
                                        assert forall|j: int|
                                            0 <= j < old(self).mixer@.subs.len() && j
                                                != i as int implies #[trigger] self.mixer@.subs[j]
                                            == old(self).mixer@.subs[j] by {}
                                    }
                                },
                                None => {
                                    proof {
                                        assert(crate::table::key_idx(
                                            old(self).mixer@.subs,
                                            sid.index,
                                        ) is None);
                                    }
                                },
                            }
                        },
                    }
                    None
                },
            },
            Command::Parameter(c) => match c {
                ParameterCommand::AddParameter(id, value) => {
                    self.parameters.add(id.index, value);
                    None
                },
                ParameterCommand::RemoveParameter(id) => {
                    self.parameters.remove(id.index);
                    None
                },
                ParameterCommand::SetParameter(id, target, tween) => {
                    self.parameters.set(id.index, target, tween);
                    None
                },
            },
            Command::Group(c) => match c {
                GroupCommand::AddGroup(id, group) => {
                    self.groups.add(id, group);
                    None
                },
                GroupCommand::RemoveGroup(id) => {
                    self.groups.remove(id);
                    None
                },
            },
            Command::Stream(c) => match c {
                StreamCommand::AddStream(id, track, stream) => {
                    self.streams.add(id, track, stream);
                    None
                },
                StreamCommand::RemoveStream(id) => {
                    match self.streams.remove(id) {
                        Some(e) => Some(Resource::Stream(e)),
                        None => None,
                    }
                },
            },
        }
    }

    /// Dispatch a command a sequence emitted, within the same frame,
    /// exactly [`output_rel`].
    fn run_sequence_output(&mut self, output: SequenceOutput)
        requires
            old(self).wf(),
        ensures
            final(self).wf(),
            final(self).device_rate == old(self).device_rate,
            output_rel(*old(self), *final(self), output),
    {
        match output {
            SequenceOutput::PlaySound(id, seq_id, playable, settings) => {
                if playable.duration() >= 0 && settings.volume.wf_exec() && settings.pitch.wf_exec()
                    && settings.panning.wf_exec() {
                    let instance = Instance::new(playable, Some(seq_id), settings);
                    self.instances.play(id, instance, &mut self.playables);
                    proof {
                        assert(crate::instance::instance_new_rel(
                            playable,
                            Some(seq_id),
                            settings,
                            instance,
                        ) && crate::instances::run_command_rel(
                            InstanceCommand::Play(id, instance),
                            old(self).instances.view(),
                            self.instances.view(),
                            old(self).instances.spec_cap(),
                            old(self).playables,
                            self.playables,
                            old(self).groups,
                        ));
                    }
                }
            },
            SequenceOutput::PauseInstance(id, s) => {
                self.instances.run_command(
                    InstanceCommand::PauseInstance(id, s),
                    &mut self.playables,
                    &self.groups,
                );
            },
            SequenceOutput::ResumeInstance(id, s) => {
                self.instances.run_command(
                    InstanceCommand::ResumeInstance(id, s),
                    &mut self.playables,
                    &self.groups,
                );
            },
            SequenceOutput::StopInstance(id, s) => {
                self.instances.run_command(
                    InstanceCommand::StopInstance(id, s),
                    &mut self.playables,
                    &self.groups,
                );
            },
            SequenceOutput::StartMetronome(id) => {
                match self.metronomes.idx_of(id.index) {
                    Some(i) => {
                        let m = self.metronomes.at_mut(i);
                        m.start();
                    },
                    None => {},
                }
            },
            SequenceOutput::PauseMetronome(id) => {
                match self.metronomes.idx_of(id.index) {
                    Some(i) => {
                        let m = self.metronomes.at_mut(i);
                        m.pause();
                    },
                    None => {},
                }
            },
            SequenceOutput::StopMetronome(id) => {
                match self.metronomes.idx_of(id.index) {
                    Some(i) => {
                        let m = self.metronomes.at_mut(i);
                        m.stop();
                    },
                    None => {},
                }
            },
        }
    }

    /// One output frame: dispatch the queued commands, advance every
    /// state machine by one frame, and mix the output.  With nothing
    /// loaded — no instances, streams, sequences, sub-tracks or main-bus
    /// effects — the engine emits exact silence.
    pub fn process_frame(&mut self, commands: Vec<Command>) -> (r: (Frame, Vec<Resource>))
        requires
            old(self).wf(),
        ensures
            final(self).wf(),
            final(self).device_rate == old(self).device_rate,
            frame_rel(*old(self), *final(self), commands@, r.1@, r.0),
            commands@.len() == 0 && old(self).instances.view().len() == 0 && old(
                self,
            ).streams.view().len() == 0 && old(self).sequences.view().len() == 0 && old(
                self,
            ).mixer@.subs.len() == 0 && old(self).mixer@.main.slots.len() == 0 && old(
                self,
            ).mixer@.main.input == (Frame { left: 0i64, right: 0i64 }) ==> r.0 == (Frame {
                left: 0i64,
                right: 0i64,
            }),
    {
        let mut unloaded: Vec<Resource> = Vec::new();
        let ghost orig_cmds = commands@;
        let mut commands = commands;
        let ghost idle = commands@.len() == 0 && old(self).instances.view().len() == 0 && old(
            self,
        ).streams.view().len() == 0 && old(self).sequences.view().len() == 0 && old(
            self,
        ).mixer@.subs.len() == 0 && old(self).mixer@.main.slots.len() == 0 && old(
            self,
        ).mixer@.main.input == (Frame { left: 0i64, right: 0i64 });
        proof {
            assert(orig_cmds.take(0) =~= Seq::<Command>::empty());
            assert(unloaded@ =~= Seq::<Resource>::empty());
        }
        while commands.len() > 0
            invariant
                self.wf(),
                self.device_rate == old(self).device_rate,
                commands@.len() <= orig_cmds.len(),
                commands@ =~= orig_cmds.skip(orig_cmds.len() - commands@.len()),
                dispatch_rel(
                    *old(self),
                    *self,
                    orig_cmds.take(orig_cmds.len() - commands@.len()),
                    unloaded@,
                ),
                idle ==> *self == *old(self),
                idle ==> commands@.len() == 0,
            decreases commands@.len(),
        {
            let ghost k = orig_cmds.len() - commands@.len();
            let ghost mid = *self;
            let ghost pre_unl = unloaded@;
            let cmd = commands.remove(0);
            proof {
                assert(orig_cmds.skip(k)[0] == orig_cmds[k]);
                assert(commands@ =~= orig_cmds.skip(k + 1));
            }
            let u = self.run_command(cmd);
            let ghost gu = u;
            match u {
                Some(v) => {
                    unloaded.push(v);
                },
                None => {},
            }
            proof {
                assert(!idle);
                assert(orig_cmds.take(k + 1).last() == orig_cmds[k]);
                assert(orig_cmds.take(k + 1).drop_last() =~= orig_cmds.take(k));
                match gu {
                    Some(v) => {
                        assert(unloaded@ =~= pre_unl.push(v));
                        assert(unloaded@.drop_last() =~= pre_unl);
                    },
                    None => {},
                }
                assert(dispatch_rel(*old(self), *self, orig_cmds.take(k + 1), unloaded@));
            }
        }
        proof {
            assert(orig_cmds.take(orig_cmds.len() as int) =~= orig_cmds);
        }
        let ghost mid1 = *self;
        self.advance();
        let ghost mid2 = *self;
        let out = self.mix_output();
        proof {
            assert(dispatch_rel(*old(self), mid1, orig_cmds, unloaded@));
            assert(advance_rel(mid1, mid2));
            assert(phase_mix(mid2, *self, out));
            assert(frame_tail_rel(mid1, *self, out));
            assert(frame_rel(*old(self), *self, orig_cmds, unloaded@, out));
            if idle {
                crate::frame::lemma_frame_zero(
                    Frame { left: 0i64, right: 0i64 },
                    old(self).mixer@.main.volume as int,
                );
            }
        }
        (out, unloaded)
    }

    /// Steps 2 through 6 of the frame, exactly [`advance_rel`]:
    /// parameters, cooldowns, metronomes, sequences (whose commands
    /// re-enter dispatch within the same frame), instances and streams.
    fn advance(&mut self)
        requires
            old(self).wf(),
        ensures
            final(self).wf(),
            final(self).device_rate == old(self).device_rate,
            advance_rel(*old(self), *final(self)),
            old(self).instances.view().len() == 0 && old(self).streams.view().len() == 0 && old(
                self,
            ).sequences.view().len() == 0 ==> final(self).mixer@ == old(self).mixer@,
    {
        self.parameters.update_all();
        let ghost m1 = *self;
        self.playables.update_cooldowns();
        let ghost m2 = *self;
        self.metronomes.update_all(&self.parameters);
        let ghost m3 = *self;
        let mut outputs: Vec<SequenceOutput> = Vec::new();
        self.sequences.update_all(&self.metronomes, &mut self.rng, &mut self.ids, &mut outputs);
        let ghost m4 = *self;
        proof {
            crate::sequence::lemma_seqs_pass_ids_monotone(
                crate::sequence::seqs_models(m3.sequences.view()),
                m3.metronomes.view(),
                m3.rng,
                m3.ids,
            );
            assert(phase_params(*old(self), m1));
            assert(phase_cooldowns(m1, m2));
            assert(phase_metronomes(m2, m3));
            assert(phase_sequences(m3, m4, outputs@));
            assert(outputs@.take(0) =~= Seq::<SequenceOutput>::empty());
        }
        let mut k: usize = 0;
        let no = outputs.len();
        proof {
            if old(self).sequences.view().len() == 0 {
                assert(crate::sequence::seqs_models(old(self).sequences.view())
                    =~= Seq::<(u64, crate::sequence::SeqModel)>::empty());
                assert(outputs@.len() == 0);
            }
        }
        while k < no
            invariant
                k <= no,
                no == outputs@.len(),
                self.wf(),
                self.device_rate == old(self).device_rate,
                outputs_rel(m4, *self, outputs@.take(k as int)),
                no == 0 && old(self).instances.view().len() == 0 ==> self.instances.view().len()
                    == 0,
                no == 0 ==> self.mixer@ == old(self).mixer@,
                no == 0 ==> self.streams.view() == old(self).streams.view(),
                no == 0 && old(self).instances.view().len() == 0 && old(
                    self,
                ).sequences.view().len() == 0 ==> self.instances.view().len() == 0,
            decreases no - k,
        {
            let output = outputs[k];
            let ghost mid = *self;
            self.run_sequence_output(output);
            proof {
                assert(outputs@.take(k as int + 1).last() == outputs@[k as int]);
                assert(outputs@.take(k as int + 1).drop_last() =~= outputs@.take(k as int));
            }
            k = k + 1;
        }
        proof {
            assert(outputs@.take(no as int) =~= outputs@);
        }
        let ghost m5 = *self;
        self.instances.process(&self.playables, &mut self.mixer, &self.parameters);
        let ghost m6 = *self;
        self.streams.process(&mut self.mixer);
        proof {
            assert(phase_instances(m5, m6));
            assert(phase_streams(m6, *self));
            assert(outputs_rel(m4, m5, outputs@));
            assert(advance_rel(*old(self), *self));
        }
    }

    /// Step 7: run the mixer and emit the frame, exactly [`phase_mix`].
    fn mix_output(&mut self) -> (r: Frame)
        requires
            old(self).wf(),
        ensures
            final(self).wf(),
            final(self).device_rate == old(self).device_rate,
            r == mixer_out(old(self).mixer@, old(self).parameters),
            phase_mix(*old(self), *final(self), r),
    {
        self.mixer.process(&self.parameters)
    }
}

/// Whether an instance command carries only well-formed values.
fn check_command_values(c: &InstanceCommand) -> (r: bool)
    ensures
        r == command_values_wf(*c),
{
    match c {
        InstanceCommand::Play(_, instance) => instance.volume.value.wf_exec()
            && instance.pitch.value.wf_exec() && instance.panning.value.wf_exec()
            && param_wf_exec(&instance.fade_volume),
        InstanceCommand::SetInstanceVolume(_, v) => v.wf_exec(),
        InstanceCommand::SetInstancePitch(_, v) => v.wf_exec(),
        InstanceCommand::SetInstancePanning(_, v) => v.wf_exec(),
        _ => true,
    }
}

/// Whether an effect's cached values are well-formed.
fn effect_values_ok(e: &crate::mixer::Effect) -> (r: bool)
    ensures
        r == crate::mixer::effect_wf(*e),
{
    match e {
        crate::mixer::Effect::Gain(cv) => cv.value.wf_exec(),
        _ => true,
    }
}

/// Whether a parameter's active tween is well-formed.
fn param_wf_exec(p: &crate::parameter::Parameter) -> (r: bool)
    ensures
        r == crate::parameter::param_wf(*p),
{
    match p.active {
        Some(at) => 1 <= at.duration && at.elapsed <= at.duration,
        None => true,
    }
}


/// A metronome store with the metronome under `index` transformed by
/// `f`-style struct updates; unknown indices leave the store unchanged.
pub open spec fn metros_started(
    pre: Seq<(u64, Metronome)>,
    post: Seq<(u64, Metronome)>,
    index: u64,
) -> bool {
    match crate::table::key_idx(pre, index) {
        Some(i) => post == pre.update(i, (index, Metronome { ticking: true, ..pre[i].1 })),
        None => post == pre,
    }
}

/// The store after pausing the metronome under `index`.
pub open spec fn metros_paused(
    pre: Seq<(u64, Metronome)>,
    post: Seq<(u64, Metronome)>,
    index: u64,
) -> bool {
    match crate::table::key_idx(pre, index) {
        Some(i) => post == pre.update(i, (index, Metronome { ticking: false, ..pre[i].1 })),
        None => post == pre,
    }
}

/// The store after stopping and rewinding the metronome under `index`.
pub open spec fn metros_stopped(
    pre: Seq<(u64, Metronome)>,
    post: Seq<(u64, Metronome)>,
    index: u64,
) -> bool {
    match crate::table::key_idx(pre, index) {
        Some(i) => post == pre.update(
            i,
            (index, Metronome { ticking: false, time: 0u128, previous_time: 0u128, ..pre[i].1 }),
        ),
        None => post == pre,
    }
}

/// The store after rebinding the tempo of the metronome under `index`.
pub open spec fn metros_tempo_set(
    pre: Seq<(u64, Metronome)>,
    post: Seq<(u64, Metronome)>,
    index: u64,
    tempo: crate::value::Value,
) -> bool {
    match crate::table::key_idx(pre, index) {
        Some(i) => {
            &&& post.len() == pre.len()
            &&& forall|j: int| 0 <= j < pre.len() && j != i ==> #[trigger] post[j] == pre[j]
            &&& post[i].0 == index
            &&& post[i].1 == (Metronome { tempo: post[i].1.tempo, ..pre[i].1 })
            &&& post[i].1.tempo.value == tempo
            &&& (!(tempo matches crate::value::Value::Random(_, _)) ==> post[i].1.tempo
                == crate::value::cached_set_spec(pre[i].1.tempo, tempo))
        },
        None => post == pre,
    }
}

/// What dispatching one command does: the full store effect per command
/// kind, the frame condition that nothing else moves, and the resource
/// handed back for unloading off the audio thread.
pub open spec fn command_rel(
    pre: Backend,
    post: Backend,
    cmd: Command,
    unloaded: Option<Resource>,
) -> bool {
    match cmd {
        Command::Resource(c) => post == (Backend { playables: post.playables, ..pre })
            && post.playables.device_rate == pre.playables.device_rate && match c {
            ResourceCommand::AddSound(id, sound) => {
                &&& unloaded is None
                &&& post.playables.arrangements.view() == pre.playables.arrangements.view()
                &&& post.playables.sounds.view() == (if sound.sample_rate >= 1 && !crate::table::has_key(
                    pre.playables.sounds.view(),
                    id.index,
                ) && pre.playables.sounds.view().len() < pre.playables.sounds.spec_cap() {
                    pre.playables.sounds.view().push((id.index, sound))
                } else {
                    pre.playables.sounds.view()
                })
            },
            ResourceCommand::RemoveSound(id) => {
                &&& post.playables.arrangements.view() == pre.playables.arrangements.view()
                &&& match crate::table::key_idx(pre.playables.sounds.view(), id.index) {
                    Some(i) => unloaded == Some(Resource::Sound(pre.playables.sounds.view()[i].1))
                        && post.playables.sounds.view() == pre.playables.sounds.view().remove(i),
                    None => unloaded is None && post.playables.sounds.view()
                        == pre.playables.sounds.view(),
                }
            },
            ResourceCommand::AddArrangement(id, arrangement) => {
                &&& unloaded is None
                &&& post.playables.sounds.view() == pre.playables.sounds.view()
                &&& post.playables.arrangements.view() == (if !crate::table::has_key(
                    pre.playables.arrangements.view(),
                    id.index,
                ) && pre.playables.arrangements.view().len()
                    < pre.playables.arrangements.spec_cap() {
                    pre.playables.arrangements.view().push((id.index, arrangement))
                } else {
                    pre.playables.arrangements.view()
                })
            },
            ResourceCommand::RemoveArrangement(id) => {
                &&& post.playables.sounds.view() == pre.playables.sounds.view()
                &&& match crate::table::key_idx(pre.playables.arrangements.view(), id.index) {
                    Some(i) => unloaded == Some(
                        Resource::Arrangement(pre.playables.arrangements.view()[i].1),
                    ) && post.playables.arrangements.view()
                        == pre.playables.arrangements.view().remove(i),
                    None => unloaded is None && post.playables.arrangements.view()
                        == pre.playables.arrangements.view(),
                }
            },
        },
        Command::Instance(c) => {
            &&& unloaded is None
            &&& post == (Backend { instances: post.instances, playables: post.playables, ..pre })
            &&& if command_values_wf(c) {
                crate::instances::run_command_rel(
                    c,
                    pre.instances.view(),
                    post.instances.view(),
                    pre.instances.spec_cap(),
                    pre.playables,
                    post.playables,
                    pre.groups,
                )
            } else {
                post.instances.view() == pre.instances.view() && post.playables == pre.playables
            }
        },
        Command::Metronome(c) => match c {
            MetronomeCommand::AddMetronome(id, m) => {
                &&& unloaded is None
                &&& post == (Backend { metronomes: post.metronomes, ..pre })
                &&& post.metronomes.view() == (if m.tempo.value.wf() && m.device_rate >= 1
                    && !crate::table::has_key(pre.metronomes.view(), id.index)
                    && pre.metronomes.view().len() < pre.metronomes.spec_cap() {
                    pre.metronomes.view().push((id.index, m))
                } else {
                    pre.metronomes.view()
                })
            },
            MetronomeCommand::RemoveMetronome(id) => {
                &&& post == (Backend { metronomes: post.metronomes, ..pre })
                &&& match crate::table::key_idx(pre.metronomes.view(), id.index) {
                    Some(i) => unloaded == Some(Resource::Metronome(pre.metronomes.view()[i].1))
                        && post.metronomes.view() == pre.metronomes.view().remove(i),
                    None => unloaded is None && post.metronomes.view() == pre.metronomes.view(),
                }
            },
            MetronomeCommand::SetMetronomeTempo(id, tempo) => {
                &&& unloaded is None
                &&& post == (Backend { metronomes: post.metronomes, ..pre })
                &&& if tempo.wf() {
                    metros_tempo_set(pre.metronomes.view(), post.metronomes.view(), id.index, tempo)
                } else {
                    post.metronomes.view() == pre.metronomes.view()
                }
            },
            MetronomeCommand::StartMetronome(id) => unloaded is None && post == (Backend {
                metronomes: post.metronomes,
                ..pre
            }) && metros_started(pre.metronomes.view(), post.metronomes.view(), id.index),
            MetronomeCommand::PauseMetronome(id) => unloaded is None && post == (Backend {
                metronomes: post.metronomes,
                ..pre
            }) && metros_paused(pre.metronomes.view(), post.metronomes.view(), id.index),
            MetronomeCommand::StopMetronome(id) => unloaded is None && post == (Backend {
                metronomes: post.metronomes,
                ..pre
            }) && metros_stopped(pre.metronomes.view(), post.metronomes.view(), id.index),
        },
        Command::Sequence(c) => {
            &&& unloaded is None
            &&& post == (Backend { sequences: post.sequences, ..pre })
            &&& match c {
                SequenceCommand::StartSequenceInstance(id, si) => crate::sequence::seqs_models(
                    post.sequences.view(),
                ) == (if si.wf() && si.steps@.len() < usize::MAX && !crate::table::has_key(
                    pre.sequences.view(),
                    id.index,
                ) && pre.sequences.view().len() < pre.sequences.spec_cap() {
                    crate::sequence::seqs_models(pre.sequences.view()).push((id.index, si@))
                } else {
                    crate::sequence::seqs_models(pre.sequences.view())
                }),
                SequenceCommand::MuteSequenceInstance(id) => seqs_lifecycle_rel(
                    pre.sequences.view(),
                    post.sequences.view(),
                    id.index,
                    SequenceAction::Mute,
                ),
                SequenceCommand::UnmuteSequenceInstance(id) => seqs_lifecycle_rel(
                    pre.sequences.view(),
                    post.sequences.view(),
                    id.index,
                    SequenceAction::Unmute,
                ),
                SequenceCommand::PauseSequenceInstance(id) => seqs_lifecycle_rel(
                    pre.sequences.view(),
                    post.sequences.view(),
                    id.index,
                    SequenceAction::Pause,
                ),
                SequenceCommand::ResumeSequenceInstance(id) => seqs_lifecycle_rel(
                    pre.sequences.view(),
                    post.sequences.view(),
                    id.index,
                    SequenceAction::Resume,
                ),
                SequenceCommand::StopSequenceInstance(id) => seqs_lifecycle_rel(
                    pre.sequences.view(),
                    post.sequences.view(),
                    id.index,
                    SequenceAction::Stop,
                ),
                SequenceCommand::PauseGroup(g) => seqs_group_rel(
                    pre.sequences.view(),
                    post.sequences.view(),
                    g,
                    SequenceAction::Pause,
                    pre.groups,
                ),
                SequenceCommand::ResumeGroup(g) => seqs_group_rel(
                    pre.sequences.view(),
                    post.sequences.view(),
                    g,
                    SequenceAction::Resume,
                    pre.groups,
                ),
                SequenceCommand::StopGroup(g) => seqs_group_rel(
                    pre.sequences.view(),
                    post.sequences.view(),
                    g,
                    SequenceAction::Stop,
                    pre.groups,
                ),
            }
        },
        Command::Mixer(c) => {
            &&& unloaded is None
            &&& post == (Backend { mixer: post.mixer, ..pre })
            &&& match c {
                MixerCommand::AddSubTrack(id, settings) => {
                    &&& post.mixer@.main == pre.mixer@.main
                    &&& post.mixer@.subs == (if !crate::table::has_key(pre.mixer@.subs, id.index)
                        && pre.mixer@.subs.len() < pre.mixer.sub_tracks.spec_cap() {
                        pre.mixer@.subs.push(
                            (
                                id.index,
                                crate::mixer::TrackModel {
                                    volume: settings.volume,
                                    slots: Seq::<(u64, crate::mixer::EffectSlot)>::empty(),
                                    input: Frame { left: 0i64, right: 0i64 },
                                },
                            ),
                        )
                    } else {
                        pre.mixer@.subs
                    })
                },
                MixerCommand::RemoveSubTrack(id) => {
                    &&& post.mixer@.main == pre.mixer@.main
                    &&& match crate::table::key_idx(pre.mixer@.subs, id.index) {
                        Some(i) => post.mixer@.subs == pre.mixer@.subs.remove(i),
                        None => post.mixer@.subs == pre.mixer@.subs,
                    }
                },
                MixerCommand::AddEffect(track, id, effect, settings) => {
                    if crate::mixer::effect_wf(effect) && settings.mix.wf() {
                        match track {
                            crate::mixer::TrackId::Main => post.mixer@.subs == pre.mixer@.subs
                                && track_effect_added(pre.mixer@.main, post.mixer@.main, id, effect, settings),
                            crate::mixer::TrackId::Sub(sid) => post.mixer@.main == pre.mixer@.main
                                && match crate::table::key_idx(pre.mixer@.subs, sid.index) {
                                Some(i) => post.mixer@.subs.len() == pre.mixer@.subs.len()
                                    && (forall|j: int|
                                    0 <= j < pre.mixer@.subs.len() && j != i
                                        ==> #[trigger] post.mixer@.subs[j] == pre.mixer@.subs[j])
                                    && post.mixer@.subs[i].0 == sid.index && track_effect_added(
                                    pre.mixer@.subs[i].1,
                                    post.mixer@.subs[i].1,
                                    id,
                                    effect,
                                    settings,
                                ),
                                None => post.mixer@.subs == pre.mixer@.subs,
                            },
                        }
                    } else {
                        post.mixer@ == pre.mixer@
                    }
                },
                MixerCommand::RemoveEffect(track, id) => match track {
                    crate::mixer::TrackId::Main => post.mixer@.subs == pre.mixer@.subs
                        && track_effect_removed(pre.mixer@.main, post.mixer@.main, id),
                    crate::mixer::TrackId::Sub(sid) => post.mixer@.main == pre.mixer@.main
                        && match crate::table::key_idx(pre.mixer@.subs, sid.index) {
                        Some(i) => post.mixer@.subs.len() == pre.mixer@.subs.len() && (forall|
                            j: int,
                        |
                            0 <= j < pre.mixer@.subs.len() && j != i ==> #[trigger] post.mixer@.subs[j]
                                == pre.mixer@.subs[j]) && post.mixer@.subs[i].0 == sid.index
                            && track_effect_removed(pre.mixer@.subs[i].1, post.mixer@.subs[i].1, id),
                        None => post.mixer@.subs == pre.mixer@.subs,
                    },
                },
            }
        },
        Command::Parameter(c) => {
            &&& unloaded is None
            &&& post == (Backend { parameters: post.parameters, ..pre })
            &&& match c {
                ParameterCommand::AddParameter(id, value) => post.parameters.view() == (
                if !crate::table::has_key(pre.parameters.view(), id.index)
                    && pre.parameters.view().len() < pre.parameters.spec_cap() {
                    pre.parameters.view().push(
                        (
                            id.index,
                            crate::parameter::Parameter {
                                value,
                                active: None::<crate::parameter::ActiveTween>,
                            },
                        ),
                    )
                } else {
                    pre.parameters.view()
                }),
                ParameterCommand::RemoveParameter(id) => match crate::table::key_idx(
                    pre.parameters.view(),
                    id.index,
                ) {
                    Some(i) => post.parameters.view() == pre.parameters.view().remove(i),
                    None => post.parameters.view() == pre.parameters.view(),
                },
                ParameterCommand::SetParameter(id, target, tween) => match crate::table::key_idx(
                    pre.parameters.view(),
                    id.index,
                ) {
                    Some(i) => post.parameters.view() == pre.parameters.view().update(
                        i,
                        (id.index, crate::parameter::param_set(pre.parameters.view()[i].1, target, tween)),
                    ),
                    None => post.parameters.view() == pre.parameters.view(),
                },
            }
        },
        Command::Group(c) => {
            &&& unloaded is None
            &&& post == (Backend { groups: post.groups, ..pre })
            &&& match c {
                GroupCommand::AddGroup(id, group) => post.groups.view() == (
                if !crate::table::has_key(pre.groups.view(), id.index) && pre.groups.view().len()
                    < pre.groups.spec_cap() && (forall|i: int|
                    0 <= i < group.parents@.len() ==> (#[trigger] group.parents@[i]).index
                        != id.index && crate::table::has_key(
                        pre.groups.view(),
                        group.parents@[i].index,
                    )) {
                    pre.groups.view().push((id.index, group))
                } else {
                    pre.groups.view()
                }),
                GroupCommand::RemoveGroup(id) => match crate::table::key_idx(
                    pre.groups.view(),
                    id.index,
                ) {
                    Some(i) => post.groups.view() == pre.groups.view().remove(i),
                    None => post.groups.view() == pre.groups.view(),
                },
            }
        },
        Command::Stream(c) => {
            &&& post == (Backend { streams: post.streams, ..pre })
            &&& match c {
                StreamCommand::AddStream(id, track, stream) => unloaded is None
                    && post.streams.view() == (if !crate::table::has_key(
                    pre.streams.view(),
                    id.index,
                ) && pre.streams.view().len() < pre.streams.spec_cap() {
                    pre.streams.view().push(
                        (id.index, crate::stream::StreamEntry { track, stream }),
                    )
                } else {
                    pre.streams.view()
                }),
                StreamCommand::RemoveStream(id) => match crate::table::key_idx(
                    pre.streams.view(),
                    id.index,
                ) {
                    Some(i) => unloaded == Some(Resource::Stream(pre.streams.view()[i].1))
                        && post.streams.view() == pre.streams.view().remove(i),
                    None => unloaded is None && post.streams.view() == pre.streams.view(),
                },
            }
        },
    }
}

/// A sequence store with a lifecycle action applied to the sequence
/// under `index`.
pub open spec fn seqs_lifecycle_rel(
    pre: Seq<(u64, crate::sequence::SequenceInstance)>,
    post: Seq<(u64, crate::sequence::SequenceInstance)>,
    index: u64,
    action: SequenceAction,
) -> bool {
    &&& post.len() == pre.len()
    &&& forall|j: int|
        0 <= j < pre.len() ==> (#[trigger] post[j]).0 == pre[j].0 && post[j].1@ == (if pre[j].0
            == index {
            crate::sequence::seq_action_apply(pre[j].1@, action)
        } else {
            pre[j].1@
        })
}

/// A sequence store with a lifecycle action applied to every sequence
/// belonging to the group.
pub open spec fn seqs_group_rel(
    pre: Seq<(u64, crate::sequence::SequenceInstance)>,
    post: Seq<(u64, crate::sequence::SequenceInstance)>,
    group: crate::ids::GroupId,
    action: SequenceAction,
    gs: Groups,
) -> bool {
    &&& post.len() == pre.len()
    &&& forall|j: int|
        0 <= j < pre.len() ==> (#[trigger] post[j]).0 == pre[j].0 && post[j].1@ == (
        if crate::group::set_reaches(
            gs.view(),
            pre[j].1@.groups,
            group.index,
            gs.view().len() as nat,
        ) {
            crate::sequence::seq_action_apply(pre[j].1@, action)
        } else {
            pre[j].1@
        })
}

/// A track with one effect slot appended (when the id is fresh and the
/// chain has room): the chain keeps its prefix and gains the new slot.
pub open spec fn track_effect_added(
    pre: crate::mixer::TrackModel,
    post: crate::mixer::TrackModel,
    id: crate::ids::EffectId,
    effect: crate::mixer::Effect,
    settings: crate::mixer::EffectSettings,
) -> bool {
    &&& post.volume == pre.volume
    &&& post.input == pre.input
    &&& if !crate::table::has_key(pre.slots, id.index) {
        ||| post.slots == pre.slots
        ||| {
            &&& post.slots.len() == pre.slots.len() + 1
            &&& post.slots.subrange(0, pre.slots.len() as int) == pre.slots
            &&& post.slots.last().0 == id.index
            &&& post.slots.last().1.effect == effect
            &&& post.slots.last().1.enabled == settings.enabled
            &&& post.slots.last().1.mix.value == settings.mix
        }
    } else {
        post.slots == pre.slots
    }
}

/// A track with the effect under `id` removed, if present.
pub open spec fn track_effect_removed(
    pre: crate::mixer::TrackModel,
    post: crate::mixer::TrackModel,
    id: crate::ids::EffectId,
) -> bool {
    &&& post.volume == pre.volume
    &&& post.input == pre.input
    &&& match crate::table::key_idx(pre.slots, id.index) {
        Some(i) => post.slots == pre.slots.remove(i),
        None => post.slots == pre.slots,
    }
}

/// What dispatching one sequence-emitted command does, within the same
/// frame: a play builds an instance (whose random settings draw, hence
/// the relation) and routes it; instance and metronome commands route as
/// their subsystems specify.
pub open spec fn output_rel(pre: Backend, post: Backend, out: SequenceOutput) -> bool {
    match out {
        SequenceOutput::PlaySound(id, seq_id, playable, settings) => {
            &&& post == (Backend { instances: post.instances, playables: post.playables, ..pre })
            &&& if playable.spec_duration() >= 0 && settings.volume.wf() && settings.pitch.wf()
                && settings.panning.wf() {
                exists|inst: Instance|
                    #[trigger] crate::instance::instance_new_rel(
                        playable,
                        Some(seq_id),
                        settings,
                        inst,
                    ) && crate::instances::run_command_rel(
                        InstanceCommand::Play(id, inst),
                        pre.instances.view(),
                        post.instances.view(),
                        pre.instances.spec_cap(),
                        pre.playables,
                        post.playables,
                        pre.groups,
                    )
            } else {
                post.instances.view() == pre.instances.view() && post.playables == pre.playables
            }
        },
        SequenceOutput::PauseInstance(id, s) => post == (Backend {
            instances: post.instances,
            playables: post.playables,
            ..pre
        }) && crate::instances::run_command_rel(
            InstanceCommand::PauseInstance(id, s),
            pre.instances.view(),
            post.instances.view(),
            pre.instances.spec_cap(),
            pre.playables,
            post.playables,
            pre.groups,
        ),
        SequenceOutput::ResumeInstance(id, s) => post == (Backend {
            instances: post.instances,
            playables: post.playables,
            ..pre
        }) && crate::instances::run_command_rel(
            InstanceCommand::ResumeInstance(id, s),
            pre.instances.view(),
            post.instances.view(),
            pre.instances.spec_cap(),
            pre.playables,
            post.playables,
            pre.groups,
        ),
        SequenceOutput::StopInstance(id, s) => post == (Backend {
            instances: post.instances,
            playables: post.playables,
            ..pre
        }) && crate::instances::run_command_rel(
            InstanceCommand::StopInstance(id, s),
            pre.instances.view(),
            post.instances.view(),
            pre.instances.spec_cap(),
            pre.playables,
            post.playables,
            pre.groups,
        ),
        SequenceOutput::StartMetronome(id) => post == (Backend {
            metronomes: post.metronomes,
            ..pre
        }) && metros_started(pre.metronomes.view(), post.metronomes.view(), id.index),
        SequenceOutput::PauseMetronome(id) => post == (Backend {
            metronomes: post.metronomes,
            ..pre
        }) && metros_paused(pre.metronomes.view(), post.metronomes.view(), id.index),
        SequenceOutput::StopMetronome(id) => post == (Backend {
            metronomes: post.metronomes,
            ..pre
        }) && metros_stopped(pre.metronomes.view(), post.metronomes.view(), id.index),
    }
}

/// Dispatching a list of sequence-emitted commands, in order.
pub open spec fn outputs_rel(pre: Backend, post: Backend, outs: Seq<SequenceOutput>) -> bool
    decreases outs.len(),
{
    if outs.len() == 0 {
        post == pre
    } else {
        exists|mid: Backend|
            #[trigger] output_rel(mid, post, outs.last()) && outputs_rel(
                pre,
                mid,
                outs.drop_last(),
            )
    }
}

/// Phase: every parameter advances one frame.
pub open spec fn phase_params(pre: Backend, post: Backend) -> bool {
    &&& post == (Backend { parameters: post.parameters, ..pre })
    &&& post.parameters.view().len() == pre.parameters.view().len()
    &&& forall|i: int|
        0 <= i < pre.parameters.view().len() ==> #[trigger] post.parameters.view()[i] == (
        pre.parameters.view()[i].0,
        crate::parameter::param_step(pre.parameters.view()[i].1),
        )
}

/// Phase: every cooldown timer counts one frame down.
pub open spec fn phase_cooldowns(pre: Backend, post: Backend) -> bool {
    &&& post == (Backend { playables: post.playables, ..pre })
    &&& post.playables.device_rate == pre.playables.device_rate
    &&& post.playables.sounds.view().len() == pre.playables.sounds.view().len()
    &&& post.playables.arrangements.view().len() == pre.playables.arrangements.view().len()
    &&& forall|i: int|
        0 <= i < pre.playables.sounds.view().len() ==> #[trigger] post.playables.sounds.view()[i]
            == (
        pre.playables.sounds.view()[i].0,
        crate::sound::Sound {
            cooldown_timer: crate::fx::sat_u64(
                pre.playables.sounds.view()[i].1.cooldown_timer - 1,
            ) as u64,
            ..pre.playables.sounds.view()[i].1
        },
        )
    &&& forall|i: int|
        0 <= i < pre.playables.arrangements.view().len()
            ==> #[trigger] post.playables.arrangements.view()[i] == (
        pre.playables.arrangements.view()[i].0,
        Arrangement {
            cooldown_timer: crate::fx::sat_u64(
                pre.playables.arrangements.view()[i].1.cooldown_timer - 1,
            ) as u64,
            ..pre.playables.arrangements.view()[i].1
        },
        )
}

/// Phase: every metronome ticks one frame under the updated parameters.
pub open spec fn phase_metronomes(pre: Backend, post: Backend) -> bool {
    &&& post == (Backend { metronomes: post.metronomes, ..pre })
    &&& post.metronomes.view().len() == pre.metronomes.view().len()
    &&& forall|i: int|
        0 <= i < pre.metronomes.view().len() ==> ({
            let m0 = pre.metronomes.view()[i].1;
            let m1 = (#[trigger] post.metronomes.view()[i]).1;
            &&& post.metronomes.view()[i].0 == pre.metronomes.view()[i].0
            &&& m1.time == crate::metronome::metro_time_after(m0, pre.parameters)
            &&& m1.previous_time == crate::metronome::metro_prev_after(m0, pre.parameters)
            &&& m1.ticking == m0.ticking
            &&& m1.tempo == crate::value::cached_update_spec(m0.tempo, pre.parameters)
            &&& m1.interval_events_to_emit == m0.interval_events_to_emit
            &&& m1.event_cap == m0.event_cap
            &&& m1.device_rate == m0.device_rate
            &&& m1.events@ == (if m0.ticking {
                crate::metronome::events_after(
                    m0.events@,
                    m0.event_cap as int,
                    m0.interval_events_to_emit@,
                    m0.time,
                    crate::metronome::metro_time_after(m0, pre.parameters),
                    m0.device_rate,
                    m0.interval_events_to_emit@.len() as int,
                )
            } else {
                m0.events@
            })
        })
}

/// Phase: every sequence drains its zero-duration steps, emitting `outs`.
pub open spec fn phase_sequences(pre: Backend, post: Backend, outs: Seq<SequenceOutput>) -> bool {
    &&& post == (Backend {
        sequences: post.sequences,
        rng: post.rng,
        ids: post.ids,
        ..pre
    })
    &&& (crate::sequence::seqs_models(post.sequences.view()), post.rng, post.ids, outs)
        == crate::sequence::seqs_pass(
        crate::sequence::seqs_models(pre.sequences.view()),
        pre.metronomes.view(),
        pre.rng,
        pre.ids,
    )
}

/// Phase: every instance emits and advances; stopped instances leave.
pub open spec fn phase_instances(pre: Backend, post: Backend) -> bool {
    &&& post == (Backend { instances: post.instances, mixer: post.mixer, ..pre })
    &&& (post.instances.view(), post.mixer@) == crate::instances::inst_pass(
        pre.instances.view(),
        pre.playables,
        pre.mixer@,
        pre.parameters,
    )
}

/// Phase: every stream pushes one frame into its track and advances.
pub open spec fn phase_streams(pre: Backend, post: Backend) -> bool {
    &&& post == (Backend { streams: post.streams, mixer: post.mixer, ..pre })
    &&& post.streams.view() == crate::stream::streams_stepped(pre.streams.view())
    &&& post.mixer@ == crate::stream::streams_mix(
        pre.streams.view(),
        pre.mixer@,
        pre.streams.view().len() as int,
    )
}

/// Phase: the mixer drains its inputs into the output frame.
pub open spec fn phase_mix(pre: Backend, post: Backend, out: Frame) -> bool {
    &&& post == (Backend { mixer: post.mixer, ..pre })
    &&& post.mixer@ == crate::mixer::mixer_processed(pre.mixer@, pre.parameters)
    &&& out == mixer_out(pre.mixer@, pre.parameters)
}

/// Steps 2 through 6 of a frame: parameters, cooldowns, metronomes,
/// sequences, the sequences' own commands, instances and streams, in
/// order, each phase reading the state the one before left.
pub open spec fn advance_rel(pre: Backend, post: Backend) -> bool {
    exists|m1: Backend, m2: Backend, m3: Backend, m4: Backend, m5: Backend, m6: Backend, outs: Seq<
        SequenceOutput,
    >|
        #![trigger phase_params(pre, m1), phase_cooldowns(m1, m2), phase_sequences(m3, m4, outs), outputs_rel(m4, m5, outs), phase_instances(m5, m6)]
        {
            &&& phase_params(pre, m1)
            &&& phase_cooldowns(m1, m2)
            &&& phase_metronomes(m2, m3)
            &&& phase_sequences(m3, m4, outs)
            &&& outputs_rel(m4, m5, outs)
            &&& phase_instances(m5, m6)
            &&& phase_streams(m6, post)
        }
}

/// The tail of a frame: the advance phases then the mix.
pub open spec fn frame_tail_rel(m1: Backend, post: Backend, out: Frame) -> bool {
    exists|m2: Backend| #[trigger] advance_rel(m1, m2) && phase_mix(m2, post, out)
}

/// One whole frame: the queued commands dispatched in order, every state
/// machine advanced, the output mixed.
pub open spec fn frame_rel(
    pre: Backend,
    post: Backend,
    cmds: Seq<Command>,
    unloaded: Seq<Resource>,
    out: Frame,
) -> bool {
    exists|m1: Backend|
        #[trigger] dispatch_rel(pre, m1, cmds, unloaded) && frame_tail_rel(m1, post, out)
}

/// Dispatching a list of control commands, in order, collecting the
/// retired resources they hand back.
pub open spec fn dispatch_rel(
    pre: Backend,
    post: Backend,
    cmds: Seq<Command>,
    unloaded: Seq<Resource>,
) -> bool
    decreases cmds.len(),
{
    if cmds.len() == 0 {
        post == pre && unloaded == Seq::<Resource>::empty()
    } else {
        exists|mid: Backend, u: Option<Resource>|
            #[trigger] command_rel(mid, post, cmds.last(), u) && (match u {
                Some(x) => unloaded.len() >= 1 && unloaded.last() == x && dispatch_rel(
                    pre,
                    mid,
                    cmds.drop_last(),
                    unloaded.drop_last(),
                ),
                None => dispatch_rel(pre, mid, cmds.drop_last(), unloaded),
            })
    }
}

/// Re-resolving a cached value reads only the parameter store's
/// observable entries.
pub proof fn lemma_cached_update_congruent(
    c: crate::value::CachedValue,
    p1: Parameters,
    p2: Parameters,
)
    requires
        p1.view() == p2.view(),
    ensures
        crate::value::cached_update_spec(c, p1) == crate::value::cached_update_spec(c, p2),
{
}

/// Stepping an effect chain reads only the parameter store's observable
/// entries.
pub proof fn lemma_slots_congruent(
    slots: Seq<(u64, crate::mixer::EffectSlot)>,
    p1: Parameters,
    p2: Parameters,
)
    requires
        p1.view() == p2.view(),
    ensures
        crate::mixer::slots_stepped(slots, p1) == crate::mixer::slots_stepped(slots, p2),
{
    assert forall|i: int| 0 <= i < slots.len() implies #[trigger] crate::mixer::slot_step(
        slots[i].1,
        p1,
    ) == crate::mixer::slot_step(slots[i].1, p2) by {
        lemma_cached_update_congruent(slots[i].1.mix, p1, p2);
        match slots[i].1.effect {
            crate::mixer::Effect::Gain(cv) => {
                lemma_cached_update_congruent(cv, p1, p2);
            },
            _ => {},
        }
    }
    assert(crate::mixer::slots_stepped(slots, p1) =~= crate::mixer::slots_stepped(slots, p2));
}

/// A track's output reads only observable state.
pub proof fn lemma_track_out_congruent(t: crate::mixer::TrackModel, p1: Parameters, p2: Parameters)
    requires
        p1.view() == p2.view(),
    ensures
        crate::mixer::track_out(t, p1) == crate::mixer::track_out(t, p2),
{
    lemma_slots_congruent(t.slots, p1, p2);
}

/// The sub-mix reads only observable state.
pub proof fn lemma_sub_mix_congruent(
    subs: Seq<(u64, crate::mixer::TrackModel)>,
    p1: Parameters,
    p2: Parameters,
    n: int,
)
    requires
        p1.view() == p2.view(),
    ensures
        crate::mixer::sub_mix_out(subs, p1, n) == crate::mixer::sub_mix_out(subs, p2, n),
    decreases n,
{
    if n > 0 {
        lemma_sub_mix_congruent(subs, p1, p2, n - 1);
        lemma_track_out_congruent(subs[n - 1].1, p1, p2);
    }
}

/// The mixed output frame reads only observable state.
pub proof fn lemma_mixer_out_congruent(m: crate::mixer::MixerModel, p1: Parameters, p2: Parameters)
    requires
        p1.view() == p2.view(),
    ensures
        mixer_out(m, p1) == mixer_out(m, p2),
{
    lemma_sub_mix_congruent(m.subs, p1, p2, m.subs.len() as int);
    lemma_track_out_congruent(
        crate::mixer::track_with_input(
            m.main,
            crate::mixer::sub_mix_out(m.subs, p1, m.subs.len() as int),
        ),
        p1,
        p2,
    );
}

/// An instance's evolution reads only observable state.
pub proof fn lemma_instance_step_congruent(i: Instance, p1: Parameters, p2: Parameters)
    requires
        p1.view() == p2.view(),
    ensures
        crate::instance::instance_step(i, p1) == crate::instance::instance_step(i, p2),
{
    lemma_cached_update_congruent(i.volume, p1, p2);
    lemma_cached_update_congruent(i.pitch, p1, p2);
    lemma_cached_update_congruent(i.panning, p1, p2);
}

/// A playable's frame reads only the stores' observable entries.
pub proof fn lemma_sample_congruent(i: Instance, ps1: Playables, ps2: Playables)
    requires
        ps1.sounds.view() == ps2.sounds.view(),
        ps1.arrangements.view() == ps2.arrangements.view(),
        ps1.device_rate == ps2.device_rate,
    ensures
        crate::instance::instance_sample_spec(i, ps1) == crate::instance::instance_sample_spec(
            i,
            ps2,
        ),
{
}

/// The whole instance pass reads only observable state.
pub proof fn lemma_inst_pass_congruent(
    entries: Seq<(u64, Instance)>,
    ps1: Playables,
    ps2: Playables,
    m: crate::mixer::MixerModel,
    p1: Parameters,
    p2: Parameters,
)
    requires
        ps1.sounds.view() == ps2.sounds.view(),
        ps1.arrangements.view() == ps2.arrangements.view(),
        ps1.device_rate == ps2.device_rate,
        p1.view() == p2.view(),
    ensures
        crate::instances::inst_pass(entries, ps1, m, p1) == crate::instances::inst_pass(
            entries,
            ps2,
            m,
            p2,
        ),
    decreases entries.len(),
{
    if entries.len() > 0 {
        let inst = entries[0].1;
        lemma_sample_congruent(inst, ps1, ps2);
        lemma_instance_step_congruent(inst, p1, p2);
        let m1 = if crate::instance::state_playing(inst.state) {
            crate::mixer::mixer_with_input(
                m,
                inst.track_index,
                crate::instance::instance_sample_spec(inst, ps1),
            )
        } else {
            m
        };
        lemma_inst_pass_congruent(entries.skip(1), ps1, ps2, m1, p1, p2);
    }
}

/// Determinism: two engines in the same observable state — the same
/// resources, instances, parameters, mixer state, random state and id
/// counter — advance identically.  Every per-frame transition above is a
/// named function of that state alone: the parameter, cooldown, metronome
/// and sequence steps take and return observable values, and this lemma
/// closes the two places where a spec reads a store through a struct, so
/// the instance pass and the mixed output frame coincide as well.
pub proof fn lemma_engine_deterministic(a: &Backend, b: &Backend)
    requires
        a.playables.sounds.view() == b.playables.sounds.view(),
        a.playables.arrangements.view() == b.playables.arrangements.view(),
        a.playables.device_rate == b.playables.device_rate,
        a.instances.view() == b.instances.view(),
        a.parameters.view() == b.parameters.view(),
        a.mixer@ == b.mixer@,
        a.metronomes.view() == b.metronomes.view(),
        a.sequences.view() == b.sequences.view(),
        a.rng == b.rng,
        a.ids == b.ids,
    ensures
        crate::instances::inst_pass(a.instances.view(), a.playables, a.mixer@, a.parameters)
            == crate::instances::inst_pass(b.instances.view(), b.playables, b.mixer@, b.parameters),
        mixer_out(a.mixer@, a.parameters) == mixer_out(b.mixer@, b.parameters),
        crate::sequence::seqs_pass(
            crate::sequence::seqs_models(a.sequences.view()),
            a.metronomes.view(),
            a.rng,
            a.ids,
        ) == crate::sequence::seqs_pass(
            crate::sequence::seqs_models(b.sequences.view()),
            b.metronomes.view(),
            b.rng,
            b.ids,
        ),
{
    lemma_inst_pass_congruent(
        a.instances.view(),
        a.playables,
        b.playables,
        a.mixer@,
        a.parameters,
        b.parameters,
    );
    lemma_mixer_out_congruent(a.mixer@, a.parameters, b.parameters);
}

} // verus!
