//! Unit tests with exact expected values for the fixed-point math, the
//! value resolver, the frame operations and the error type.

use kira::frame::Frame;
use kira::fx::{
    ceil_div_u64, fx_mul, fx_powi, lerp_fx, mul_div_i64, sat_add_i64, sat_neg_i64, sat_sub_u64,
    FX_ONE, FX_ONE_U,
};
use kira::error::AudioError;
use kira::parameter::Parameter;
use kira::tween::{ease, Easing, Tween};
use kira::value::Mapping;

#[test]
fn saturating_addition_clamps_at_the_ends() {
    assert_eq!(sat_add_i64(2, 3), 5);
    assert_eq!(sat_add_i64(i64::MAX, 1), i64::MAX);
    assert_eq!(sat_add_i64(i64::MIN, -1), i64::MIN);
    assert_eq!(sat_neg_i64(i64::MIN), i64::MAX);
    assert_eq!(sat_neg_i64(5), -5);
    assert_eq!(sat_sub_u64(3, 5), 0);
    assert_eq!(sat_sub_u64(5, 3), 2);
}

#[test]
fn fixed_point_multiplication_is_exact() {
    // 1.5 * 2.0 == 3.0
    assert_eq!(fx_mul(FX_ONE + FX_ONE / 2, 2 * FX_ONE), 3 * FX_ONE);
    // (-1.0) * 0.5 == -0.5
    assert_eq!(fx_mul(-FX_ONE, FX_ONE / 2), -(FX_ONE / 2));
    assert_eq!(mul_div_i64(10, 3, 4), 7);
    assert_eq!(mul_div_i64(-10, 3, 4), -8);
}

#[test]
fn ceiling_division_rounds_up() {
    assert_eq!(ceil_div_u64(10, 5), 2);
    assert_eq!(ceil_div_u64(11, 5), 3);
    assert_eq!(ceil_div_u64(0, 5), 0);
    assert_eq!(ceil_div_u64(u64::MAX, 1), u64::MAX);
}

#[test]
fn interpolation_hits_both_ends_exactly() {
    assert_eq!(lerp_fx(10, 20, 0), 10);
    assert_eq!(lerp_fx(10, 20, FX_ONE_U), 20);
    assert_eq!(lerp_fx(10, 20, FX_ONE_U / 2), 15);
    assert_eq!(lerp_fx(20, 10, FX_ONE_U / 2), 15);
}

#[test]
fn powers_follow_the_curve() {
    assert_eq!(fx_powi(FX_ONE_U / 2, 0), FX_ONE_U);
    assert_eq!(fx_powi(FX_ONE_U / 2, 1), FX_ONE_U / 2);
    assert_eq!(fx_powi(FX_ONE_U / 2, 2), FX_ONE_U / 4);
    assert_eq!(fx_powi(FX_ONE_U, 10), FX_ONE_U);
}

#[test]
fn easing_curves_map_the_unit_interval() {
    assert_eq!(ease(Easing::Linear, FX_ONE_U / 4), FX_ONE_U / 4);
    assert_eq!(ease(Easing::InPowi(2), FX_ONE_U / 2), FX_ONE_U / 4);
    assert_eq!(ease(Easing::OutPowi(2), FX_ONE_U / 2), FX_ONE_U - FX_ONE_U / 4);
    // In-out of x^2: the first half is (2t)^2 / 2.
    assert_eq!(ease(Easing::InOutPowi(2), FX_ONE_U / 4), FX_ONE_U / 8);
    assert_eq!(ease(Easing::InOutPowi(2), 0), 0);
    assert_eq!(ease(Easing::Linear, FX_ONE_U), FX_ONE_U);
}

#[test]
fn parameter_tween_reaches_its_target() {
    let mut p = Parameter::new(10 * FX_ONE);
    p.set(0, Some(Tween::linear(4)));
    let mut values = Vec::new();
    for _ in 0..4 {
        let finished = p.update();
        values.push((p.value(), finished));
    }
    assert_eq!(
        values,
        vec![
            (10 * FX_ONE - 10 * FX_ONE / 4, false),
            (5 * FX_ONE, false),
            (10 * FX_ONE / 4, false),
            (0, true),
        ]
    );
    // A further update leaves the parameter at rest.
    assert_eq!(p.update(), false);
    assert_eq!(p.value(), 0);
}

#[test]
fn parameter_snap_without_tween() {
    let mut p = Parameter::new(3);
    p.set(9, None);
    assert_eq!(p.value(), 9);
    p.set(1, Some(Tween { duration: 0, easing: Easing::Linear }));
    assert_eq!(p.value(), 1);
}

#[test]
fn mapping_scales_between_ranges() {
    let m = Mapping {
        input_low: 0,
        input_high: FX_ONE,
        output_low: 0,
        output_high: 10 * FX_ONE,
        clamp_bottom: false,
        clamp_top: false,
    };
    assert_eq!(m.map(FX_ONE / 2), 5 * FX_ONE);
    assert_eq!(m.map(FX_ONE), 10 * FX_ONE);
    // Beyond the range without clamping, the line keeps going.
    assert_eq!(m.map(2 * FX_ONE), 20 * FX_ONE);
    let clamped = Mapping { clamp_top: true, clamp_bottom: true, ..m };
    assert_eq!(clamped.map(2 * FX_ONE), 10 * FX_ONE);
    assert_eq!(clamped.map(-FX_ONE), 0);
}

#[test]
fn frames_pan_and_scale() {
    let f = Frame { left: 1000, right: -400 };
    assert_eq!(f.add(Frame { left: 1, right: 2 }), Frame { left: 1001, right: -398 });
    assert_eq!(f.scaled(FX_ONE / 2), Frame { left: 500, right: -200 });
    // Hard left keeps the whole left channel and silences the right.
    assert_eq!(f.panned(0), Frame { left: 1000, right: 0 });
    assert_eq!(f.panned(FX_ONE_U), Frame { left: 0, right: -400 });
    assert_eq!(Frame::zero(), Frame { left: 0, right: 0 });
    assert_eq!(Frame::from_mono(7), Frame { left: 7, right: 7 });
}

#[test]
fn sound_lookup_interpolates_between_samples() {
    let sound = kira::sound::Sound::new(
        48000,
        vec![
            Frame { left: 0, right: 0 },
            Frame { left: 1000, right: 1000 },
            Frame { left: 2000, right: 2000 },
        ],
        kira::sound::PlayableSettings::default(),
    );
    assert_eq!(sound.frame_at(0, 48000), Frame { left: 0, right: 0 });
    assert_eq!(sound.frame_at(FX_ONE, 48000), Frame { left: 1000, right: 1000 });
    assert_eq!(sound.frame_at(FX_ONE / 2, 48000), Frame { left: 500, right: 500 });
    // Outside the sample range the sound is silent.
    assert_eq!(sound.frame_at(3 * FX_ONE, 48000), Frame { left: 0, right: 0 });
    assert_eq!(sound.frame_at(-FX_ONE, 48000), Frame { left: 0, right: 0 });
}

#[test]
fn error_descriptions_name_each_failure() {
    assert_eq!(AudioError::CommandQueueFull.describe(), "the command queue is full");
    assert_eq!(AudioError::ResourceNotFound.describe(), "no such resource");
    assert_eq!(AudioError::InvalidSequence.describe(), "the sequence is not valid");
    assert_eq!(AudioError::CapacityExceeded.describe(), "the store is full");
    assert_eq!(AudioError::GroupCycle.describe(), "a group may not contain itself");
}

#[test]
fn audio_rng_is_reproducible() {
    let mut a = kira::rng::AudioRng::new(42);
    let mut b = kira::rng::AudioRng::new(42);
    for _ in 0..100 {
        assert_eq!(a.next(), b.next());
    }
    let d = a.below(10);
    assert!(d < 10);
}

#[test]
fn arrangement_sums_overlapping_clips() {
    let mut mgr_settings = kira::backend::AudioManagerSettings::default();
    mgr_settings.num_commands = 16;
    let (mut manager, mut rt) = kira::manager::create_manager(mgr_settings, 48000, 1);
    let mut frames = Vec::new();
    for _ in 0..100 {
        frames.push(Frame { left: 1000, right: 1000 });
    }
    let sound = kira::sound::Sound::new(48000, frames, kira::sound::PlayableSettings::default());
    let sid = manager.add_sound(sound).unwrap();
    let mut arrangement = kira::arrangement::Arrangement::new(
        kira::sound::PlayableSettings::default(),
    );
    arrangement.add_clip(kira::arrangement::SoundClip::new(sid, 0));
    arrangement.add_clip(kira::arrangement::SoundClip::new(sid, 0));
    let aid = manager.add_arrangement(arrangement).unwrap();
    let _ = manager
        .play(kira::playable::Playable::Arrangement(aid), kira::instance::InstanceSettings::default())
        .unwrap();
    rt.process();
    let out = rt.process();
    // Two copies of the same clip double the amplitude to 2000; the
    // default centered panning then halves each channel.
    assert_eq!(out, Frame { left: 1000, right: 1000 });
}

#[test]
fn group_ancestry_is_transitive_in_the_store() {
    let mut groups = kira::group::Groups::new(8);
    let c = kira::ids::GroupId::new(2);
    let b = kira::ids::GroupId::new(1);
    let a = kira::ids::GroupId::new(0);
    assert!(groups.add(c, kira::group::Group::new(Vec::new())));
    assert!(groups.add(b, kira::group::Group::new(vec![c])));
    assert!(groups.add(a, kira::group::Group::new(vec![b])));
    let tagged = vec![a];
    assert!(groups.set_has_ancestor(&tagged, a));
    assert!(groups.set_has_ancestor(&tagged, b));
    assert!(groups.set_has_ancestor(&tagged, c));
    assert!(!groups.set_has_ancestor(&vec![b], a));
    // A group may not name itself among its parents.
    let d = kira::ids::GroupId::new(3);
    assert!(!groups.add(d, kira::group::Group::new(vec![d])));
}

#[test]
fn metronome_interval_crossing_matches_the_formula() {
    // 120 beats per minute at 48000 frames per second crosses a whole
    // beat every 24000 frames; the very first frame also fires.
    let mut m = kira::metronome::Metronome::new(
        kira::metronome::MetronomeSettings {
            tempo: kira::value::Value::Fixed(120 * FX_ONE),
            interval_events_to_emit: vec![FX_ONE_U],
            event_queue_capacity: 100,
        },
        48000,
    );
    m.start();
    let params = kira::parameter::Parameters::new(4);
    let mut fired = Vec::new();
    for frame in 1..=48001u64 {
        m.update(&params);
        if m.events_len() > fired.len() {
            fired.push(frame);
        }
    }
    assert_eq!(fired, vec![1, 24000, 48000]);
}
