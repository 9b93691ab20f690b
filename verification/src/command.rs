//! Commands crossing from the control side to the audio side.

use vstd::prelude::*;

verus! {

use crate::arrangement::{Arrangement, ArrangementId};
use crate::group::Group;
use crate::ids::{AudioStreamId, EffectId, GroupId, InstanceId, MetronomeId, ParameterId,
    SequenceInstanceId, SubTrackId};
use crate::instance::{
    Instance, PauseInstanceSettings, ResumeInstanceSettings, StopInstanceSettings,
};
use crate::metronome::Metronome;
use crate::mixer::{Effect, EffectSettings, TrackId, TrackSettings};
use crate::playable::Playable;
use crate::sequence::SequenceInstance;
use crate::sound::{Sound, SoundId};
use crate::stream::AudioStream;
use crate::tween::Tween;
use crate::value::Value;

/// Commands that add and remove playable resources.
pub enum ResourceCommand {
    AddSound(SoundId, Sound),
    RemoveSound(SoundId),
    AddArrangement(ArrangementId, Arrangement),
    RemoveArrangement(ArrangementId),
}

/// Commands addressed to instances: one, all of a playable, all of a
/// sequence, or all under a group.
pub enum InstanceCommand {
    Play(InstanceId, Instance),
    SetInstanceVolume(InstanceId, Value),
    SetInstancePitch(InstanceId, Value),
    SetInstancePanning(InstanceId, Value),
    SeekInstance(InstanceId, i64),
    SeekInstanceTo(InstanceId, i64),
    PauseInstance(InstanceId, PauseInstanceSettings),
    ResumeInstance(InstanceId, ResumeInstanceSettings),
    StopInstance(InstanceId, StopInstanceSettings),
    PauseInstancesOf(Playable, PauseInstanceSettings),
    ResumeInstancesOf(Playable, ResumeInstanceSettings),
    StopInstancesOf(Playable, StopInstanceSettings),
    PauseInstancesOfSequence(SequenceInstanceId, PauseInstanceSettings),
    ResumeInstancesOfSequence(SequenceInstanceId, ResumeInstanceSettings),
    StopInstancesOfSequence(SequenceInstanceId, StopInstanceSettings),
    PauseGroup(GroupId, PauseInstanceSettings),
    ResumeGroup(GroupId, ResumeInstanceSettings),
    StopGroup(GroupId, StopInstanceSettings),
}

/// Commands addressed to metronomes.
pub enum MetronomeCommand {
    AddMetronome(MetronomeId, Metronome),
    RemoveMetronome(MetronomeId),
    SetMetronomeTempo(MetronomeId, Value),
    StartMetronome(MetronomeId),
    PauseMetronome(MetronomeId),
    StopMetronome(MetronomeId),
}

/// Commands addressed to sequences.
pub enum SequenceCommand {
    StartSequenceInstance(SequenceInstanceId, SequenceInstance),
    MuteSequenceInstance(SequenceInstanceId),
    UnmuteSequenceInstance(SequenceInstanceId),
    PauseSequenceInstance(SequenceInstanceId),
    ResumeSequenceInstance(SequenceInstanceId),
    StopSequenceInstance(SequenceInstanceId),
    PauseGroup(GroupId),
    ResumeGroup(GroupId),
    StopGroup(GroupId),
}

/// Commands addressed to the mixer.
pub enum MixerCommand {
    AddSubTrack(SubTrackId, TrackSettings),
    RemoveSubTrack(SubTrackId),
    AddEffect(TrackId, EffectId, Effect, EffectSettings),
    RemoveEffect(TrackId, EffectId),
}

/// Commands addressed to parameters.
pub enum ParameterCommand {
    AddParameter(ParameterId, i64),
    RemoveParameter(ParameterId),
    SetParameter(ParameterId, i64, Option<Tween>),
}

/// Commands addressed to groups.
pub enum GroupCommand {
    AddGroup(GroupId, Group),
    RemoveGroup(GroupId),
}

/// Commands addressed to audio streams.
pub enum StreamCommand {
    AddStream(AudioStreamId, TrackId, AudioStream),
    RemoveStream(AudioStreamId),
}

/// Everything the control side can ask of the audio side.
pub enum Command {
    Resource(ResourceCommand),
    Instance(InstanceCommand),
    Metronome(MetronomeCommand),
    Sequence(SequenceCommand),
    Mixer(MixerCommand),
    Parameter(ParameterCommand),
    Group(GroupCommand),
    Stream(StreamCommand),
}

} // verus!
