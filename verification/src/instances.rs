//! The bounded set of playing instances and the commands addressed to it.

use vstd::prelude::*;

verus! {

use crate::command::InstanceCommand;
use crate::group::{Groups, set_reaches};
use crate::ids::InstanceId;
use crate::instance::{
    Instance, InstanceState, instance_sample_spec, instance_step, real_tween, state_playing,
};
use crate::mixer::{Mixer, MixerModel, mixer_with_input};
use crate::parameter::{Parameters, param_set};
use crate::playable::{
    Playable, Playables, cooldown_started_rel, playable_cooling_spec, playable_groups_spec,
    playable_same_spec,
};
use crate::table::{Table, has_key, keys_unique};
use crate::value::{CachedValue, Value};

/// Whether the instance in `entry` is addressed by `command`.
pub open spec fn command_matches(
    entry: (u64, Instance),
    ps: Playables,
    gs: Groups,
    c: InstanceCommand,
) -> bool {
    match c {
        InstanceCommand::SetInstanceVolume(id, _) => entry.0 == id.index,
        InstanceCommand::SetInstancePitch(id, _) => entry.0 == id.index,
        InstanceCommand::SetInstancePanning(id, _) => entry.0 == id.index,
        InstanceCommand::SeekInstance(id, _) => entry.0 == id.index,
        InstanceCommand::SeekInstanceTo(id, _) => entry.0 == id.index,
        InstanceCommand::PauseInstance(id, _) => entry.0 == id.index,
        InstanceCommand::ResumeInstance(id, _) => entry.0 == id.index,
        InstanceCommand::StopInstance(id, _) => entry.0 == id.index,
        InstanceCommand::PauseInstancesOf(p, _) => playable_same_spec(entry.1.playable, p),
        InstanceCommand::ResumeInstancesOf(p, _) => playable_same_spec(entry.1.playable, p),
        InstanceCommand::StopInstancesOf(p, _) => playable_same_spec(entry.1.playable, p),
        InstanceCommand::PauseInstancesOfSequence(q, _) => match entry.1.sequence_id {
            Some(s) => s.index == q.index,
            None => false,
        },
        InstanceCommand::ResumeInstancesOfSequence(q, _) => match entry.1.sequence_id {
            Some(s) => s.index == q.index,
            None => false,
        },
        InstanceCommand::StopInstancesOfSequence(q, _) => match entry.1.sequence_id {
            Some(s) => s.index == q.index,
            None => false,
        },
        InstanceCommand::PauseGroup(g, _) => set_reaches(
            gs.view(),
            playable_groups_spec(ps, entry.1.playable),
            g.index,
            gs.view().len() as nat,
        ),
        InstanceCommand::ResumeGroup(g, _) => set_reaches(
            gs.view(),
            playable_groups_spec(ps, entry.1.playable),
            g.index,
            gs.view().len() as nat,
        ),
        InstanceCommand::StopGroup(g, _) => set_reaches(
            gs.view(),
            playable_groups_spec(ps, entry.1.playable),
            g.index,
            gs.view().len() as nat,
        ),
        InstanceCommand::Play(_, _) => false,
    }
}

/// The settings carried by a command are well-formed.
pub open spec fn command_values_wf(c: InstanceCommand) -> bool {
    match c {
        InstanceCommand::Play(_, instance) => instance.wf(),
        InstanceCommand::SetInstanceVolume(_, v) => v.wf(),
        InstanceCommand::SetInstancePitch(_, v) => v.wf(),
        InstanceCommand::SetInstancePanning(_, v) => v.wf(),
        _ => true,
    }
}

/// Commands whose effect is a function of the state: everything except a
/// random value rebind, which draws.
pub open spec fn command_deterministic(c: InstanceCommand) -> bool {
    match c {
        InstanceCommand::SetInstanceVolume(_, v) => !(v is Random),
        InstanceCommand::SetInstancePitch(_, v) => !(v is Random),
        InstanceCommand::SetInstancePanning(_, v) => !(v is Random),
        _ => true,
    }
}

/// What a (deterministic) command does to one targeted instance.
pub open spec fn command_apply(i: Instance, c: InstanceCommand) -> Instance {
    match c {
        InstanceCommand::SetInstanceVolume(_, v) => Instance {
            volume: crate::value::cached_set_spec(i.volume, v),
            ..i
        },
        InstanceCommand::SetInstancePitch(_, v) => Instance {
            pitch: crate::value::cached_set_spec(i.pitch, v),
            ..i
        },
        InstanceCommand::SetInstancePanning(_, v) => Instance {
            panning: crate::value::cached_set_spec(i.panning, v),
            ..i
        },
        InstanceCommand::SeekInstance(_, o) => Instance {
            position: crate::fx::sat_i64(i.position + o) as i64,
            ..i
        },
        InstanceCommand::SeekInstanceTo(_, p) => Instance { position: p, ..i },
        InstanceCommand::PauseInstance(_, s) => inst_paused(i, s),
        InstanceCommand::ResumeInstance(_, s) => inst_resumed(i, s),
        InstanceCommand::StopInstance(_, s) => inst_stopped(i, s),
        InstanceCommand::PauseInstancesOf(_, s) => inst_paused(i, s),
        InstanceCommand::ResumeInstancesOf(_, s) => inst_resumed(i, s),
        InstanceCommand::StopInstancesOf(_, s) => inst_stopped(i, s),
        InstanceCommand::PauseInstancesOfSequence(_, s) => inst_paused(i, s),
        InstanceCommand::ResumeInstancesOfSequence(_, s) => inst_resumed(i, s),
        InstanceCommand::StopInstancesOfSequence(_, s) => inst_stopped(i, s),
        InstanceCommand::PauseGroup(_, s) => inst_paused(i, s),
        InstanceCommand::ResumeGroup(_, s) => inst_resumed(i, s),
        InstanceCommand::StopGroup(_, s) => inst_stopped(i, s),
        InstanceCommand::Play(_, _) => i,
    }
}

/// What a random-value rebind does to one targeted instance: only the
/// addressed setting changes, to the new source with a fresh draw inside
/// its bounds.
pub open spec fn random_rebind_rel(pre: Instance, post: Instance, c: InstanceCommand) -> bool {
    match c {
        InstanceCommand::SetInstanceVolume(_, v) => post == (Instance {
            volume: post.volume,
            ..pre
        }) && post.volume.value == v && (v matches Value::Random(lo, hi) ==> (if lo <= hi {
            lo <= post.volume.last_value <= hi
        } else {
            hi <= post.volume.last_value <= lo
        })),
        InstanceCommand::SetInstancePitch(_, v) => post == (Instance { pitch: post.pitch, ..pre })
            && post.pitch.value == v && (v matches Value::Random(lo, hi) ==> (if lo <= hi {
            lo <= post.pitch.last_value <= hi
        } else {
            hi <= post.pitch.last_value <= lo
        })),
        InstanceCommand::SetInstancePanning(_, v) => post == (Instance {
            panning: post.panning,
            ..pre
        }) && post.panning.value == v && (v matches Value::Random(lo, hi) ==> (if lo <= hi {
            lo <= post.panning.last_value <= hi
        } else {
            hi <= post.panning.last_value <= lo
        })),
        _ => post == pre,
    }
}

/// An instance after a pause command; a stopped instance is terminal.
pub open spec fn inst_paused(i: Instance, s: crate::instance::PauseInstanceSettings) -> Instance {
    if i.state == InstanceState::Stopped {
        i
    } else {
        Instance {
            state: if real_tween(s.fade_tween) {
                InstanceState::Pausing(i.position)
            } else {
                InstanceState::Paused(i.position)
            },
            fade_volume: param_set(i.fade_volume, 0i64, s.fade_tween),
            ..i
        }
    }
}

/// An instance after a resume command.
pub open spec fn inst_resumed(i: Instance, s: crate::instance::ResumeInstanceSettings) -> Instance {
    match i.state {
        InstanceState::Paused(p) => Instance {
            state: InstanceState::Playing,
            position: if s.rewind_to_pause_position {
                p
            } else {
                i.position
            },
            fade_volume: param_set(i.fade_volume, crate::fx::FX_ONE, s.fade_tween),
            ..i
        },
        InstanceState::Pausing(p) => Instance {
            state: InstanceState::Playing,
            position: if s.rewind_to_pause_position {
                p
            } else {
                i.position
            },
            fade_volume: param_set(i.fade_volume, crate::fx::FX_ONE, s.fade_tween),
            ..i
        },
        _ => i,
    }
}

/// An instance after a stop command; a stopped instance is terminal.
pub open spec fn inst_stopped(i: Instance, s: crate::instance::StopInstanceSettings) -> Instance {
    if i.state == InstanceState::Stopped {
        i
    } else {
        Instance {
            state: if real_tween(s.fade_tween) {
                InstanceState::Stopping
            } else {
                InstanceState::Stopped
            },
            fade_volume: param_set(i.fade_volume, 0i64, s.fade_tween),
            ..i
        }
    }
}

/// The instance set with a (deterministic) command applied to every
/// instance it addresses.
pub open spec fn entries_commanded(
    entries: Seq<(u64, Instance)>,
    ps: Playables,
    gs: Groups,
    c: InstanceCommand,
) -> Seq<(u64, Instance)> {
    entries.map_values(
        |e: (u64, Instance)|
            if command_matches(e, ps, gs, c) {
                (e.0, command_apply(e.1, c))
            } else {
                e
            },
    )
}

/// Whether a play of `p` would be accepted: the playable exists and its
/// cooldown is idle.
pub open spec fn play_allowed(ps: Playables, p: Playable) -> bool {
    (match p {
        Playable::Sound(sid) => has_key(ps.sounds.view(), sid.index),
        Playable::Arrangement(aid) => has_key(ps.arrangements.view(), aid.index),
    }) && !playable_cooling_spec(ps, p)
}

/// The instance set after an accepted play: a full set evicts its oldest
/// member, then the instance joins under its id (unless the id is
/// somehow already taken).
pub open spec fn entries_played(
    entries: Seq<(u64, Instance)>,
    cap: int,
    id: u64,
    instance: Instance,
) -> Seq<(u64, Instance)> {
    let evicted = if entries.len() >= cap && entries.len() >= 1 {
        entries.skip(1)
    } else {
        entries
    };
    if !has_key(evicted, id) && evicted.len() < cap {
        evicted.push((id, instance))
    } else {
        evicted
    }
}

/// One pass over the instance set: each emitting instance writes its
/// sample into its track, each instance advances one frame, and the
/// instances that had already stopped leave the set, order preserved.
pub open spec fn inst_pass(
    entries: Seq<(u64, Instance)>,
    ps: Playables,
    m: MixerModel,
    params: Parameters,
) -> (Seq<(u64, Instance)>, MixerModel)
    decreases entries.len(),
{
    if entries.len() == 0 {
        (Seq::empty(), m)
    } else {
        let id = entries[0].0;
        let inst = entries[0].1;
        let m1 = if state_playing(inst.state) {
            mixer_with_input(m, inst.track_index, instance_sample_spec(inst, ps))
        } else {
            m
        };
        let rest = inst_pass(entries.skip(1), ps, m1, params);
        if inst.state == InstanceState::Stopped {
            rest
        } else {
            (seq![(id, instance_step(inst, params))] + rest.0, rest.1)
        }
    }
}

/// A pass keeps keys unique, never grows the set, and only lets go of
/// instances that had already stopped: every instance either remains in
/// the set or was in the terminal state before its removal.
pub proof fn lemma_inst_pass_keys(
    entries: Seq<(u64, Instance)>,
    ps: Playables,
    m: MixerModel,
    params: Parameters,
)
    requires
        keys_unique(entries),
    ensures
        keys_unique(inst_pass(entries, ps, m, params).0),
        inst_pass(entries, ps, m, params).0.len() <= entries.len(),
        forall|k: u64|
            has_key(#[trigger] inst_pass(entries, ps, m, params).0, k) ==> has_key(entries, k),
        forall|i: int|
            0 <= i < entries.len() && (#[trigger] entries[i]).1.state != InstanceState::Stopped
                ==> has_key(inst_pass(entries, ps, m, params).0, entries[i].0),
    decreases entries.len(),
{
    if entries.len() > 0 {
        let id = entries[0].0;
        let inst = entries[0].1;
        let m1 = if state_playing(inst.state) {
            mixer_with_input(m, inst.track_index, instance_sample_spec(inst, ps))
        } else {
            m
        };
        let tail = entries.skip(1);
        assert(keys_unique(tail)) by {
            assert forall|a: int, b: int| 0 <= a < b < tail.len() implies tail[a].0
                != tail[b].0 by {
                assert(tail[a] == entries[a + 1]);
                assert(tail[b] == entries[b + 1]);
            }
        }
        lemma_inst_pass_keys(tail, ps, m1, params);
        let rest = inst_pass(tail, ps, m1, params);
        let full = inst_pass(entries, ps, m, params);
        if inst.state == InstanceState::Stopped {
            assert forall|i: int|
                0 <= i < entries.len() && (#[trigger] entries[i]).1.state
                    != InstanceState::Stopped implies has_key(full.0, entries[i].0) by {
                assert(entries[i] == tail[i - 1]);
            }
            assert forall|k: u64| has_key(#[trigger] full.0, k) implies has_key(entries, k) by {
                assert(has_key(tail, k));
                let j = choose|j: int| 0 <= j < tail.len() && tail[j].0 == k;
                assert(entries[j + 1].0 == k);
            }
        } else {
            assert(!has_key(rest.0, id)) by {
                if has_key(rest.0, id) {
                    assert(has_key(tail, id));
                    let j = choose|j: int| 0 <= j < tail.len() && tail[j].0 == id;
                    assert(tail[j] == entries[j + 1]);
                    assert(entries[j + 1].0 == entries[0].0);
                    assert(false);
                }
            }
            assert(keys_unique(full.0)) by {
                assert forall|a: int, b: int| 0 <= a < b < full.0.len() implies full.0[a].0
                    != full.0[b].0 by {
                    if a == 0 {
                        assert(full.0[b] == rest.0[b - 1]);
                        assert(has_key(rest.0, rest.0[b - 1].0));
                    } else {
                        assert(full.0[a] == rest.0[a - 1]);
                        assert(full.0[b] == rest.0[b - 1]);
                    }
                }
            }
            assert forall|k: u64| has_key(#[trigger] full.0, k) implies has_key(entries, k) by {
                let j = choose|j: int| 0 <= j < full.0.len() && full.0[j].0 == k;
                if j == 0 {
                    assert(full.0[0] == (id, instance_step(inst, params)));
                    assert(entries[0].0 == k);
                } else {
                    assert(full.0[j] == rest.0[j - 1]);
                    assert(has_key(rest.0, k));
                    assert(has_key(tail, k));
                    let jj = choose|jj: int| 0 <= jj < tail.len() && tail[jj].0 == k;
                    assert(tail[jj] == entries[jj + 1]);
                    assert(entries[jj + 1].0 == k);
                }
            }
            assert forall|i: int|
                0 <= i < entries.len() && (#[trigger] entries[i]).1.state
                    != InstanceState::Stopped implies has_key(full.0, entries[i].0) by {
                if i == 0 {
                    assert(full.0[0] == (id, instance_step(inst, params)));
                    assert(full.0[0].0 == id);
                } else {
                    assert(entries[i] == tail[i - 1]);
                    assert(has_key(rest.0, entries[i].0));
                    let j = choose|j: int| 0 <= j < rest.0.len() && rest.0[j].0 == entries[i].0;
                    assert(full.0[j + 1] == rest.0[j]);
                    assert(full.0[j + 1].0 == entries[i].0);
                }
            }
        }
    }
}

/// What routing a command does: the full store effects of
/// [`Instances::run_command`], relating the instance set and the
/// playable stores before and after.
pub open spec fn run_command_rel(
    command: InstanceCommand,
    pre_entries: Seq<(u64, Instance)>,
    post_entries: Seq<(u64, Instance)>,
    cap: int,
    pre_ps: Playables,
    post_ps: Playables,
    gs: Groups,
) -> bool {
    match command {
        InstanceCommand::Play(id, instance) => if play_allowed(pre_ps, instance.playable) {
            post_entries == entries_played(pre_entries, cap, id.index, instance)
                && cooldown_started_rel(pre_ps, post_ps, instance.playable)
        } else {
            post_entries == pre_entries && post_ps == pre_ps
        },
        _ => post_ps == pre_ps && (command_deterministic(command) ==> post_entries
            == entries_commanded(pre_entries, pre_ps, gs, command)) && post_entries.len()
            == pre_entries.len() && (!command_deterministic(command) ==> forall|j: int|
            0 <= j < pre_entries.len() ==> (#[trigger] post_entries[j]).0 == pre_entries[j].0 && (
            if command_matches(pre_entries[j], pre_ps, gs, command) {
                random_rebind_rel(pre_entries[j].1, post_entries[j].1, command)
            } else {
                post_entries[j] == pre_entries[j]
            })),
    }
}

/// The set of playing instances, bounded by its capacity.
pub struct Instances {
    table: Table<Instance>,
}

impl Instances {
    /// The instances by id, in the order they started.
    pub closed spec fn view(&self) -> Seq<(u64, Instance)> {
        self.table.view()
    }

    /// The fixed capacity.
    pub closed spec fn spec_cap(&self) -> int {
        self.table.spec_cap()
    }

    /// Keys unique, capacity respected — the set never exceeds its
    /// capacity — and every instance well-formed.
    pub open spec fn wf(&self) -> bool {
        &&& self.table_wf()
        &&& forall|i: int| 0 <= i < self.view().len() ==> (#[trigger] self.view()[i].1).wf()
    }

    /// The underlying table invariant.
    pub closed spec fn table_wf(&self) -> bool {
        self.table.wf()
    }

    /// An empty set with room for `cap` instances.
    pub fn new(cap: usize) -> (r: Instances)
        ensures
            r.view() == Seq::<(u64, Instance)>::empty(),
            r.spec_cap() == cap,
            r.wf(),
    {
        Instances { table: Table::new(cap) }
    }

    /// How many instances are playing or fading.
    pub fn len(&self) -> (r: usize)
        ensures
            r == self.view().len(),
    {
        self.table.len()
    }

    /// A shared borrow of the instance with the given id.
    pub fn get(&self, id: InstanceId) -> (r: Option<&Instance>)
        requires
            self.wf(),
        ensures
            match crate::table::key_idx(self.view(), id.index) {
                Some(i) => r == Some(&self.view()[i].1),
                None => r is None,
            },
    {
        self.table.get(id.index)
    }

    /// Start an instance: rejected while its playable is cooling down or
    /// missing; a full set evicts its oldest member; a successful start
    /// arms the playable's cooldown.
    pub fn play(&mut self, id: InstanceId, instance: Instance, playables: &mut Playables) -> (r:
        bool)
        requires
            old(self).wf(),
            old(playables).wf(),
            instance.wf(),
        ensures
            final(self).wf(),
            final(playables).wf(),
            final(self).spec_cap() == old(self).spec_cap(),
            final(playables).device_rate == old(playables).device_rate,
            final(playables).sounds.spec_cap() == old(playables).sounds.spec_cap(),
            final(playables).arrangements.spec_cap() == old(playables).arrangements.spec_cap(),
            r == play_allowed(*old(playables), instance.playable),
            !r ==> final(self).view() == old(self).view() && *final(playables) == *old(playables),
            r ==> final(self).view() == entries_played(
                old(self).view(),
                old(self).spec_cap(),
                id.index,
                instance,
            ) && cooldown_started_rel(*old(playables), *final(playables), instance.playable),
    {
        let present = playables.exists_in_store(instance.playable);
        if !present {
            return false;
        }
        if playables.cooling_down(instance.playable) {
            return false;
        }
        if self.table.len() >= self.table.capacity() && self.table.len() >= 1 {
            self.table.remove_at(0);
            proof {
                assert(old(self).view().skip(1) =~= old(self).view().remove(0));
            }
        }
        if !self.table.contains(id.index) {
            if self.table.len() < self.table.capacity() {
                self.table.push(id.index, instance);
            }
        }
        playables.start_cooldown(instance.playable);
        true
    }

    /// Route a command to the instances it addresses, exactly
    /// [`run_command_rel`].  Unknown ids are ignored: resources may be
    /// removed at any time.
    pub fn run_command(
        &mut self,
        command: InstanceCommand,
        playables: &mut Playables,
        groups: &Groups,
    )
        requires
            old(self).wf(),
            old(playables).wf(),
            groups.wf(),
            command_values_wf(command),
        ensures
            final(self).wf(),
            final(playables).wf(),
            final(self).spec_cap() == old(self).spec_cap(),
            final(playables).device_rate == old(playables).device_rate,
            final(playables).sounds.spec_cap() == old(playables).sounds.spec_cap(),
            final(playables).arrangements.spec_cap() == old(playables).arrangements.spec_cap(),
            run_command_rel(
                command,
                old(self).view(),
                final(self).view(),
                old(self).spec_cap(),
                *old(playables),
                *final(playables),
                *groups,
            ),
    {
        match command {
            InstanceCommand::Play(id, instance) => {
                self.play(id, instance, playables);
            },
            _ => {
                let n = self.table.len();
                let mut i: usize = 0;
                while i < n
                    invariant
                        i <= n,
                        n == self.view().len(),
                        self.view().len() == old(self).view().len(),
                        self.spec_cap() == old(self).spec_cap(),
                        self.table_wf(),
                        playables.wf(),
                        *playables == *old(playables),
                        groups.wf(),
                        !(command is Play),
                        command_values_wf(command),
                        forall|j: int| 0 <= j < n ==> (#[trigger] self.view()[j].1).wf(),
                        forall|j: int|
                            0 <= j < i ==> (#[trigger] self.view()[j]).0 == old(self).view()[j].0
                                && (if command_matches(
                                old(self).view()[j],
                                *old(playables),
                                *groups,
                                command,
                            ) {
                                if command_deterministic(command) {
                                    self.view()[j].1 == command_apply(
                                        old(self).view()[j].1,
                                        command,
                                    )
                                } else {
                                    random_rebind_rel(
                                        old(self).view()[j].1,
                                        self.view()[j].1,
                                        command,
                                    )
                                }
                            } else {
                                self.view()[j] == old(self).view()[j]
                            }),
                        forall|j: int|
                            i <= j < n ==> #[trigger] self.view()[j] == old(self).view()[j],
                    decreases n - i,
                {
                    let targeted = self.is_match(i, &command, playables, groups);
                    if targeted {
                        let slot = self.table.value_at_mut(i);
                        apply_command(slot, &command);
                    }
                    i = i + 1;
                }
                proof {
                    if command_deterministic(command) {
                        assert(self.view() =~= entries_commanded(
                            old(self).view(),
                            *old(playables),
                            *groups,
                            command,
                        ));
                    }
                }
            },
        }
    }

    /// Whether the instance at position `i` is addressed by `command`.
    fn is_match(
        &self,
        i: usize,
        command: &InstanceCommand,
        playables: &Playables,
        groups: &Groups,
    ) -> (r: bool)
        requires
            self.wf(),
            playables.wf(),
            groups.wf(),
            i < self.view().len(),
        ensures
            r == command_matches(self.view()[i as int], *playables, *groups, *command),
    {
        let key = self.table.key_at(i);
        let inst = self.table.value_at(i);
        match command {
            InstanceCommand::SetInstanceVolume(id, _) => key == id.index,
            InstanceCommand::SetInstancePitch(id, _) => key == id.index,
            InstanceCommand::SetInstancePanning(id, _) => key == id.index,
            InstanceCommand::SeekInstance(id, _) => key == id.index,
            InstanceCommand::SeekInstanceTo(id, _) => key == id.index,
            InstanceCommand::PauseInstance(id, _) => key == id.index,
            InstanceCommand::ResumeInstance(id, _) => key == id.index,
            InstanceCommand::StopInstance(id, _) => key == id.index,
            InstanceCommand::PauseInstancesOf(p, _) => inst.playable.same(p),
            InstanceCommand::ResumeInstancesOf(p, _) => inst.playable.same(p),
            InstanceCommand::StopInstancesOf(p, _) => inst.playable.same(p),
            InstanceCommand::PauseInstancesOfSequence(q, _) => match inst.sequence_id {
                Some(s) => s.index == q.index,
                None => false,
            },
            InstanceCommand::ResumeInstancesOfSequence(q, _) => match inst.sequence_id {
                Some(s) => s.index == q.index,
                None => false,
            },
            InstanceCommand::StopInstancesOfSequence(q, _) => match inst.sequence_id {
                Some(s) => s.index == q.index,
                None => false,
            },
            InstanceCommand::PauseGroup(g, _) => playables.is_in_group(inst.playable, *g, groups),
            InstanceCommand::ResumeGroup(g, _) => playables.is_in_group(inst.playable, *g, groups),
            InstanceCommand::StopGroup(g, _) => playables.is_in_group(inst.playable, *g, groups),
            InstanceCommand::Play(_, _) => false,
        }
    }

    /// One frame for the whole set: emit samples, advance, and drop the
    /// instances that had already stopped.  Exactly [`inst_pass`].
    pub fn process(&mut self, playables: &Playables, mixer: &mut Mixer, params: &Parameters)
        requires
            old(self).wf(),
            playables.wf(),
            old(mixer).wf(),
            params.wf(),
        ensures
            final(self).wf(),
            final(mixer).wf(),
            final(self).spec_cap() == old(self).spec_cap(),
            final(mixer).sub_tracks.spec_cap() == old(mixer).sub_tracks.spec_cap(),
            final(self).view() == inst_pass(old(self).view(), *playables, old(mixer)@, *params).0,
            final(mixer)@ == inst_pass(old(self).view(), *playables, old(mixer)@, *params).1,
    {
        let ghost orig = old(self).view();
        let ghost m0 = old(mixer)@;
        let entries = self.table.take_entries();
        let n = entries.len();
        let mut kept: Vec<(u64, Instance)> = Vec::new();
        let mut i: usize = 0;
        proof {
            assert(orig.skip(0) =~= orig);
            assert(kept@ + inst_pass(orig, *playables, m0, *params).0 =~= inst_pass(
                orig,
                *playables,
                m0,
                *params,
            ).0);
        }
        while i < n
            invariant
                i <= n,
                n == entries@.len(),
                entries@ == orig,
                playables.wf(),
                params.wf(),
                mixer.wf(),
                mixer.sub_tracks.spec_cap() == old(mixer).sub_tracks.spec_cap(),
                keys_unique(orig),
                forall|j: int| 0 <= j < n ==> (#[trigger] orig[j].1).wf(),
                forall|j: int| 0 <= j < kept@.len() ==> (#[trigger] kept@[j].1).wf(),
                inst_pass(orig, *playables, m0, *params) == ({
                    let rest = inst_pass(orig.skip(i as int), *playables, mixer@, *params);
                    (kept@ + rest.0, rest.1)
                }),
            decreases n - i,
        {
            let (id, inst) = entries[i];
            let ghost pre_kept = kept@;
            if inst.playing() {
                let sample = inst.get_sample(playables);
                mixer.add_input(inst.track_index, sample);
            }
            let finished = inst.finished();
            let mut stepped = inst;
            stepped.update(params);
            if !finished {
                kept.push((id, stepped));
            }
            proof {
                assert(orig.skip(i as int)[0] == orig[i as int]);
                assert(orig.skip(i as int).skip(1) =~= orig.skip(i as int + 1));
                let rest = inst_pass(orig.skip(i as int + 1), *playables, mixer@, *params);
                if !finished {
                    assert(kept@ =~= pre_kept.push((id, stepped)));
                    assert(kept@ + rest.0 =~= pre_kept + (seq![(id, stepped)] + rest.0));
                }
            }
            i = i + 1;
        }
        proof {
            assert(orig.skip(n as int) =~= Seq::<(u64, Instance)>::empty());
            assert(kept@ + Seq::<(u64, Instance)>::empty() =~= kept@);
            lemma_inst_pass_keys(orig, *playables, m0, *params);
        }
        self.table.replace_entries(kept);
    }
}

/// Apply a command to one targeted instance.
fn apply_command(slot: &mut Instance, command: &InstanceCommand)
    requires
        old(slot).wf(),
        command_values_wf(*command),
        !(command is Play),
    ensures
        final(slot).wf(),
        command_deterministic(*command) ==> *final(slot) == command_apply(*old(slot), *command),
        !command_deterministic(*command) ==> random_rebind_rel(*old(slot), *final(slot), *command),
{
    match command {
        InstanceCommand::SetInstanceVolume(_, v) => slot.set_volume(*v),
        InstanceCommand::SetInstancePitch(_, v) => slot.set_pitch(*v),
        InstanceCommand::SetInstancePanning(_, v) => slot.set_panning(*v),
        InstanceCommand::SeekInstance(_, o) => slot.seek(*o),
        InstanceCommand::SeekInstanceTo(_, p) => slot.seek_to(*p),
        InstanceCommand::PauseInstance(_, s) => slot.pause(*s),
        InstanceCommand::ResumeInstance(_, s) => slot.resume(*s),
        InstanceCommand::StopInstance(_, s) => slot.stop(*s),
        InstanceCommand::PauseInstancesOf(_, s) => slot.pause(*s),
        InstanceCommand::ResumeInstancesOf(_, s) => slot.resume(*s),
        InstanceCommand::StopInstancesOf(_, s) => slot.stop(*s),
        InstanceCommand::PauseInstancesOfSequence(_, s) => slot.pause(*s),
        InstanceCommand::ResumeInstancesOfSequence(_, s) => slot.resume(*s),
        InstanceCommand::StopInstancesOfSequence(_, s) => slot.stop(*s),
        InstanceCommand::PauseGroup(_, s) => slot.pause(*s),
        InstanceCommand::ResumeGroup(_, s) => slot.resume(*s),
        InstanceCommand::StopGroup(_, s) => slot.stop(*s),
        InstanceCommand::Play(_, _) => {},
    }
}


/// A cooldown timer after `k` frames of countdown.
pub open spec fn cooldown_after(c: u64, k: nat) -> int
    decreases k,
{
    if k == 0 {
        c as int
    } else {
        crate::fx::sat_u64(cooldown_after(c, (k - 1) as nat) - 1)
    }
}

/// Cooldown separates plays: an accepted play arms the playable's timer
/// with its cooldown `c` ([`Instances::play`]), each frame counts it down
/// by one ([`Playables::update_cooldowns`]), and a play is rejected while
/// the timer is positive.  So for fewer than `c` frames after a
/// successful play the timer stays positive and every further play of
/// that playable is rejected: successful plays are at least `c` frames
/// apart.
pub proof fn lemma_cooldown_blocks(c: u64, k: nat)
    requires
        k < c,
    ensures
        cooldown_after(c, k) == c - k,
        cooldown_after(c, k) > 0,
    decreases k,
{
    if k > 0 {
        lemma_cooldown_blocks(c, (k - 1) as nat);
    }
}

/// Stopping a group reaches transitively nested members: an instance
/// whose playable belongs to group `a`, where `a` is an ancestor-member
/// of `b` and `b` of `c`, is addressed by a stop of group `c`, provided
/// the nesting depth fits the ancestry search bound (the group count).
pub proof fn lemma_stop_group_transitive(
    entry: (u64, Instance),
    ps: Playables,
    gs: Groups,
    b: u64,
    c: u64,
    jb: int,
    f1: nat,
    f2: nat,
    s: crate::instance::StopInstanceSettings,
)
    requires
        set_reaches(gs.view(), playable_groups_spec(ps, entry.1.playable), b, f1),
        crate::table::key_idx(gs.view(), b) == Some(jb),
        0 <= jb < gs.view().len(),
        gs.view()[jb].0 == b,
        set_reaches(gs.view(), gs.view()[jb].1.parents@, c, f2),
        f1 + f2 + 1 <= gs.view().len(),
    ensures
        command_matches(
            entry,
            ps,
            gs,
            InstanceCommand::StopGroup(crate::ids::GroupId { index: c }, s),
        ),
{
    crate::group::lemma_set_reaches_trans(
        gs.view(),
        playable_groups_spec(ps, entry.1.playable),
        b,
        c,
        jb,
        f1,
        f2,
    );
    crate::group::lemma_set_reaches_fuel(
        gs.view(),
        playable_groups_spec(ps, entry.1.playable),
        c,
        (f1 + f2 + 1) as nat,
        gs.view().len() as nat,
    );
}

} // verus!
