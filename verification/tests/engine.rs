//! End-to-end scenarios driving the engine through the command channel,
//! one output frame at a time, at a 48000 Hz device rate.

use kira::backend::AudioManagerSettings;
use kira::frame::Frame;
use kira::fx::FX_ONE;
use kira::instance::{
    InstanceSettings, InstanceState, LoopStart, PauseInstanceSettings, StopInstanceSettings,
};
use kira::manager::{create_manager, AudioManager, AudioRuntime};
use kira::playable::Playable;
use kira::sequence::{Sequence, StepDuration};
use kira::sound::{PlayableSettings, Sound};
use kira::tween::Tween;
use kira::value::Value;

const RATE: u32 = 48000;

fn sine_sound(samples: usize, settings: PlayableSettings) -> Sound {
    let mut frames = Vec::new();
    for n in 0..samples {
        let x = (n as f64) * 440.0 * 2.0 * std::f64::consts::PI / 48000.0;
        let amp = (x.sin() * 1_000_000.0) as i64;
        frames.push(Frame { left: amp, right: amp });
    }
    Sound::new(RATE, frames, settings)
}

fn constant_sound(samples: usize, amp: i64, settings: PlayableSettings) -> Sound {
    let mut frames = Vec::new();
    for _ in 0..samples {
        frames.push(Frame { left: amp, right: amp });
    }
    Sound::new(RATE, frames, settings)
}

fn engine() -> (AudioManager, AudioRuntime) {
    create_manager(AudioManagerSettings::default(), RATE, 7)
}

fn magnitude(f: Frame) -> i64 {
    let l = if f.left < 0 { -f.left } else { f.left };
    let r = if f.right < 0 { -f.right } else { f.right };
    if l > r {
        l
    } else {
        r
    }
}

#[test]
fn one_shot_plays_to_completion() {
    let (mut manager, mut rt) = engine();
    let id = manager.add_sound(sine_sound(48000, PlayableSettings::default())).unwrap();
    let inst = manager.play(Playable::Sound(id), InstanceSettings::default()).unwrap();
    let mut last = Frame { left: 0, right: 0 };
    for _ in 0..48001 {
        last = rt.process();
    }
    let stored = rt.backend.instances.get(inst).expect("instance still in the set");
    assert!(matches!(stored.state, InstanceState::Stopped));
    assert_eq!(last, Frame { left: 0, right: 0 });
}

#[test]
fn loop_region_keeps_position_in_range() {
    let (mut manager, mut rt) = engine();
    let id = manager.add_sound(sine_sound(48000, PlayableSettings::default())).unwrap();
    let mut settings = InstanceSettings::default();
    settings.loop_start = LoopStart::Custom(0);
    settings.start_position = 0;
    let inst = manager.play(Playable::Sound(id), settings).unwrap();
    for _ in 0..96000 {
        rt.process();
    }
    let stored = rt.backend.instances.get(inst).expect("instance still playing");
    assert!(matches!(stored.state, InstanceState::Playing));
    assert!(stored.position >= 0);
    // The wrap lands in the half-open-from-below loop region, so the
    // position may sit exactly on the duration for one frame.
    assert!(stored.position <= 48000 * FX_ONE);
    rt.process();
    let stored = rt.backend.instances.get(inst).expect("instance still playing");
    assert!(stored.position >= 0);
    assert!(stored.position < 48000 * FX_ONE);
}

#[test]
fn pause_with_fade_halves_then_silences() {
    let (mut manager, mut rt) = engine();
    let id = manager.add_sound(sine_sound(48000, PlayableSettings::default())).unwrap();
    let mut settings = InstanceSettings::default();
    settings.loop_start = LoopStart::Custom(0);
    let inst = manager.play(Playable::Sound(id), settings).unwrap();
    let mut at_24000 = Frame { left: 0, right: 0 };
    for _ in 0..24000 {
        at_24000 = rt.process();
    }
    manager
        .pause_instance(inst, PauseInstanceSettings { fade_tween: Some(Tween::linear(24000)) })
        .unwrap();
    let mut midway = Frame { left: 0, right: 0 };
    for _ in 0..12001 {
        midway = rt.process();
    }
    // The fade factor is exactly one half here; fixed-point halving of a
    // negative sample may overshoot by one unit, hence the slack of two.
    assert!(2 * magnitude(midway) <= magnitude(at_24000) + 2);
    let mut at_48000 = Frame { left: 0, right: 0 };
    for _ in 0..11999 {
        at_48000 = rt.process();
    }
    let stored = rt.backend.instances.get(inst).expect("instance still in the set");
    assert!(matches!(stored.state, InstanceState::Paused(_)));
    // The last faded frame carries at most a vanishing remnant; the next
    // frame, with the fade finished, is exact silence.
    assert!(magnitude(at_48000) <= 64);
    let silent = rt.process();
    assert_eq!(silent, Frame { left: 0, right: 0 });
}

#[test]
fn cooldown_rejects_second_play_in_frame() {
    let (mut manager, mut rt) = engine();
    let mut settings = PlayableSettings::default();
    settings.cooldown = Some(48000);
    let id = manager.add_sound(sine_sound(48000, settings)).unwrap();
    let first = manager.play(Playable::Sound(id), InstanceSettings::default()).unwrap();
    let second = manager.play(Playable::Sound(id), InstanceSettings::default()).unwrap();
    rt.process();
    assert!(rt.backend.instances.get(first).is_some());
    assert!(rt.backend.instances.get(second).is_none());
    for _ in 0..48001 {
        rt.process();
    }
    let third = manager.play(Playable::Sound(id), InstanceSettings::default()).unwrap();
    rt.process();
    assert!(rt.backend.instances.get(third).is_some());
}

#[test]
fn capacity_evicts_oldest_instance() {
    let mut settings = AudioManagerSettings::default();
    settings.num_instances = 2;
    let (mut manager, mut rt) = create_manager(settings, RATE, 7);
    let id = manager.add_sound(sine_sound(48000, PlayableSettings::default())).unwrap();
    let a = manager.play(Playable::Sound(id), InstanceSettings::default()).unwrap();
    rt.process();
    let b = manager.play(Playable::Sound(id), InstanceSettings::default()).unwrap();
    rt.process();
    let c = manager.play(Playable::Sound(id), InstanceSettings::default()).unwrap();
    rt.process();
    assert_eq!(rt.backend.instances.len(), 2);
    assert!(rt.backend.instances.get(a).is_none());
    assert!(rt.backend.instances.get(b).is_some());
    assert!(rt.backend.instances.get(c).is_some());
}

#[test]
fn metronome_emits_one_event_per_beat_plus_start() {
    let (mut manager, mut rt) = engine();
    let mid = manager
        .add_metronome(kira::metronome::MetronomeSettings {
            tempo: Value::Fixed(120 * FX_ONE),
            interval_events_to_emit: vec![FX_ONE as u64],
            event_queue_capacity: 10,
        })
        .unwrap();
    manager.start_metronome(mid).unwrap();
    for k in 1..=3u64 {
        for _ in 0..24000 {
            rt.process();
        }
        let i = rt.backend.metronomes.idx_of(mid.index).expect("metronome exists");
        let pending = rt.backend.metronomes.at_mut(i).events_len() as u64;
        assert_eq!(pending, k + 1);
    }
}

#[test]
fn sequence_loops_and_replays() {
    let (mut manager, mut rt) = engine();
    let sid = manager.add_sound(sine_sound(48000, PlayableSettings::default())).unwrap();
    let mut seq = Sequence::new(Vec::new());
    seq.start_loop();
    seq.wait(StepDuration::Frames(12000));
    let _slot = seq.play(Playable::Sound(sid), InstanceSettings::default());
    seq.emit_custom_event(7);
    seq.wait(StepDuration::Frames(12000));
    let handle = manager.start_sequence(seq, None).unwrap();
    for _ in 0..48000 {
        rt.process();
    }
    assert_eq!(rt.backend.sequences.events_len(handle.index), 2);
    assert_eq!(rt.backend.instances.len(), 2);
    for _ in 0..48000 {
        rt.process();
    }
    assert_eq!(rt.backend.sequences.events_len(handle.index), 4);
}

#[test]
fn sequence_loop_rebinds_instance_ids() {
    let (mut manager, mut rt) = engine();
    let sid = manager.add_sound(sine_sound(48000, PlayableSettings::default())).unwrap();
    let mut seq = Sequence::new(Vec::new());
    seq.start_loop();
    let _slot = seq.play(Playable::Sound(sid), InstanceSettings::default());
    seq.wait(StepDuration::Frames(1000));
    let handle = manager.start_sequence(seq, None).unwrap();
    rt.process();
    let si = rt.backend.sequences.take_events_of(handle.index);
    assert!(si.is_empty());
    // After the first iteration, one instance exists; after the loop
    // jumps, a second instance under a different id joins it.
    for _ in 0..1001 {
        rt.process();
    }
    assert_eq!(rt.backend.instances.len(), 2);
}

#[test]
fn stop_group_reaches_nested_members() {
    let (mut manager, mut rt) = engine();
    let c = manager.add_group(Vec::new()).unwrap();
    let b = manager.add_group(vec![c]).unwrap();
    let a = manager.add_group(vec![b]).unwrap();
    let mut settings = PlayableSettings::default();
    settings.groups = vec![a];
    let id = manager.add_sound(sine_sound(48000, settings)).unwrap();
    let inst = manager.play(Playable::Sound(id), InstanceSettings::default()).unwrap();
    rt.process();
    assert!(matches!(
        rt.backend.instances.get(inst).unwrap().state,
        InstanceState::Playing
    ));
    manager.stop_group(c, StopInstanceSettings { fade_tween: None }).unwrap();
    rt.process();
    // Stopped without a fade before the frame's pass, the instance has
    // already left the set; untouched it would have played on for a
    // full second.
    assert!(rt.backend.instances.get(inst).is_none());
}

#[test]
fn stop_fade_never_rises() {
    let (mut manager, mut rt) = engine();
    let id = manager.add_sound(constant_sound(96000, 1_000_000, PlayableSettings::default())).unwrap();
    let inst = manager.play(Playable::Sound(id), InstanceSettings::default()).unwrap();
    for _ in 0..100 {
        rt.process();
    }
    manager
        .stop_instance(inst, StopInstanceSettings { fade_tween: Some(Tween::linear(1000)) })
        .unwrap();
    let mut prev = magnitude(rt.process());
    for _ in 0..1100 {
        let cur = magnitude(rt.process());
        assert!(cur <= prev);
        prev = cur;
    }
    assert_eq!(prev, 0);
}

#[test]
fn silence_on_idle() {
    let (_manager, mut rt) = engine();
    for _ in 0..100 {
        assert_eq!(rt.process(), Frame { left: 0, right: 0 });
    }
}

#[test]
fn determinism_without_random_values() {
    let build = || {
        let (mut manager, rt) = engine();
        let id = manager.add_sound(sine_sound(4800, PlayableSettings::default())).unwrap();
        let _ = manager.play(Playable::Sound(id), InstanceSettings::default()).unwrap();
        (manager, rt)
    };
    let (_m1, mut rt1) = build();
    let (_m2, mut rt2) = build();
    for _ in 0..6000 {
        assert_eq!(rt1.process(), rt2.process());
    }
}

#[test]
fn command_queue_full_is_reported() {
    let mut settings = AudioManagerSettings::default();
    settings.num_commands = 1;
    let (mut manager, _rt) = create_manager(settings, RATE, 7);
    let id = manager.add_sound(sine_sound(48, PlayableSettings::default())).unwrap();
    let second = manager.play(Playable::Sound(id), InstanceSettings::default());
    assert_eq!(second.unwrap_err(), kira::error::AudioError::CommandQueueFull);
}

#[test]
fn invalid_sequence_is_rejected() {
    let (mut manager, _rt) = engine();
    let mut seq = Sequence::new(Vec::new());
    seq.wait(StepDuration::Frames(10));
    seq.start_loop();
    let r = manager.start_sequence(seq, None);
    assert_eq!(r.unwrap_err(), kira::error::AudioError::InvalidSequence);
}

#[test]
fn reverse_playback_starts_from_the_end() {
    let (mut manager, mut rt) = engine();
    let id = manager.add_sound(constant_sound(4800, 500_000, PlayableSettings::default())).unwrap();
    let mut settings = InstanceSettings::default();
    settings.reverse = true;
    settings.start_position = 0;
    let inst = manager.play(Playable::Sound(id), settings).unwrap();
    rt.process();
    let stored = rt.backend.instances.get(inst).unwrap();
    assert_eq!(stored.reverse, true);
    assert!(stored.position <= 4800 * FX_ONE);
    for _ in 0..4800 {
        rt.process();
    }
    let stored = rt.backend.instances.get(inst).unwrap();
    assert!(matches!(stored.state, InstanceState::Stopped));
}

#[test]
fn wait_for_interval_blocks_until_the_beat() {
    let (mut manager, mut rt) = engine();
    let mid = manager
        .add_metronome(kira::metronome::MetronomeSettings {
            tempo: Value::Fixed(120 * FX_ONE),
            interval_events_to_emit: Vec::new(),
            event_queue_capacity: 4,
        })
        .unwrap();
    manager.start_metronome(mid).unwrap();
    let mut seq = Sequence::new(Vec::new());
    seq.wait_for_interval(FX_ONE as u64);
    seq.emit_custom_event(3);
    // A final long wait keeps the sequence alive so its event queue can
    // be inspected.
    seq.wait(StepDuration::Frames(1_000_000));
    let handle = manager.start_sequence(seq, Some(mid)).unwrap();
    rt.process();
    // The metronome fires its start event on the first frame, which the
    // sequence sees one frame later; the event follows on that frame.
    rt.process();
    assert_eq!(rt.backend.sequences.events_len(handle.index), 1);
}

#[test]
fn mono_fold_effect_runs_on_the_main_track() {
    let (mut manager, mut rt) = engine();
    let _fx = manager
        .add_effect(
            kira::mixer::TrackId::Main,
            kira::mixer::Effect::SwapChannels,
            kira::mixer::EffectSettings { enabled: true, mix: Value::Fixed(FX_ONE) },
        )
        .unwrap();
    let mut frames = Vec::new();
    for _ in 0..100 {
        frames.push(Frame { left: 10_000, right: -4_000 });
    }
    let id = manager.add_sound(Sound::new(RATE, frames, PlayableSettings::default())).unwrap();
    let mut settings = InstanceSettings::default();
    settings.panning = Value::Fixed(FX_ONE / 2);
    let _ = manager.play(Playable::Sound(id), settings).unwrap();
    rt.process();
    let out = rt.process();
    // Centered panning halves each channel; the swap effect then crosses
    // them, so the larger magnitude lands on the right.
    assert_eq!(out, Frame { left: -2_000, right: 5_000 });
}

#[test]
fn random_draw_stays_in_bounds() {
    for _ in 0..50 {
        let cv = kira::value::CachedValue::new(Value::Random(10, 20), 0);
        assert!(10 <= cv.last_value && cv.last_value <= 20);
    }
}

#[test]
fn sequence_step_wait_matches_exact_frame_counts() {
    // The step interpreter's wait of N frames elapses after exactly N
    // process calls: the play lands on frame N + 1.
    let (mut manager, mut rt) = engine();
    let sid = manager.add_sound(constant_sound(48000, 1_000, PlayableSettings::default())).unwrap();
    let mut seq = Sequence::new(Vec::new());
    seq.wait(StepDuration::Frames(10));
    let _ = seq.play(Playable::Sound(sid), InstanceSettings::default());
    let _handle = manager.start_sequence(seq, None).unwrap();
    for _ in 0..10 {
        rt.process();
        assert_eq!(rt.backend.instances.len(), 0);
    }
    rt.process();
    assert_eq!(rt.backend.instances.len(), 1);
}

#[test]
fn loop_arrangement_plays_past_the_sound_end() {
    let (mut manager, mut rt) = engine();
    let mut sound_settings = PlayableSettings::default();
    sound_settings.semantic_duration = Some(100 * FX_ONE);
    let sid = manager.add_sound(constant_sound(150, 800_000, sound_settings)).unwrap();
    let arrangement = kira::arrangement::Arrangement::new_loop(sid, PlayableSettings::default());
    assert_eq!(arrangement.settings.default_loop_start, Some(100 * FX_ONE));
    let aid = manager.add_arrangement(arrangement).unwrap();
    let inst = manager
        .play(Playable::Arrangement(aid), InstanceSettings::default())
        .unwrap();
    // Far beyond the 150-frame sound, the looping arrangement still
    // plays, and the trailing 50 frames overlap the loop's start.  An
    // extra frame steps over the one-frame seam where the position sits
    // exactly on the region's end.
    for _ in 0..1001 {
        rt.process();
    }
    let stored = rt.backend.instances.get(inst).expect("looping instance lives on");
    assert!(matches!(stored.state, InstanceState::Playing));
    let out = rt.process();
    assert!(magnitude(out) > 0);
}

#[test]
fn rebinding_a_fixed_volume_takes_effect() {
    let (mut manager, mut rt) = engine();
    let id = manager.add_sound(constant_sound(48000, 1_000_000, PlayableSettings::default())).unwrap();
    let inst = manager.play(Playable::Sound(id), InstanceSettings::default()).unwrap();
    rt.process();
    let loud = rt.process();
    manager.set_instance_volume(inst, Value::Fixed(FX_ONE / 4)).unwrap();
    rt.process();
    let quiet = rt.process();
    // The fixed rebind resolves immediately: a quarter of the volume.
    assert_eq!(quiet.left * 4, loud.left);
    assert_eq!(quiet.right * 4, loud.right);
}

#[test]
fn stopping_stays_terminal() {
    let (mut manager, mut rt) = engine();
    let id = manager.add_sound(constant_sound(48000, 1_000_000, PlayableSettings::default())).unwrap();
    let inst = manager.play(Playable::Sound(id), InstanceSettings::default()).unwrap();
    rt.process();
    manager.stop_instance(inst, StopInstanceSettings { fade_tween: None }).unwrap();
    // A pause arriving with the stop in the same frame must not
    // resurrect the stopped instance into an emitting state.
    manager
        .pause_instance(inst, PauseInstanceSettings { fade_tween: Some(Tween::linear(100)) })
        .unwrap();
    rt.process();
    assert!(rt.backend.instances.get(inst).is_none());
    assert_eq!(rt.process(), Frame { left: 0, right: 0 });
}

#[test]
fn group_with_unknown_parent_is_rejected() {
    let (mut manager, mut rt) = engine();
    let ghost_parent = kira::ids::GroupId::new(9999);
    let g = manager.add_group(vec![ghost_parent]).unwrap();
    rt.process();
    // The audio side refused the group: stopping it reaches nothing, and
    // a sound tagged with it is not in any group the store knows.
    let mut settings = PlayableSettings::default();
    settings.groups = vec![g];
    let id = manager.add_sound(constant_sound(48000, 1_000, settings)).unwrap();
    let inst = manager.play(Playable::Sound(id), InstanceSettings::default()).unwrap();
    manager.stop_group(g, StopInstanceSettings { fade_tween: None }).unwrap();
    rt.process();
    let stored = rt.backend.instances.get(inst).expect("instance unaffected");
    assert!(matches!(stored.state, InstanceState::Playing));
}
