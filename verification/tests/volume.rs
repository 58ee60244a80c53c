//! Volumes, the resampler's setup and drift.

use audio_mirror::audio::drift::{DriftPhase, DriftStep, Reading};
use audio_mirror::audio::format::{AudioSpec, SampleFormat, Speakers};
use audio_mirror::audio::swr::{
    av_sample_format, channel_layout, mono_upmix, Layout, Resampler, LAYOUT_4POINT1,
};
use audio_mirror::audio::volume::{apply_volume, volume_of, OutputShared};
use audio_mirror::float::{exceeds, peak, unit, unity};
use std::sync::atomic::Ordering;

fn scaled(samples: &[u32], vol: u32) -> Vec<u32> {
    samples
        .iter()
        .map(|s| (f32::from_bits(*s) * f32::from_bits(vol)).to_bits())
        .collect()
}

#[test]
fn volume_is_skipped_at_unity_and_mute_wins() {
    let shared = OutputShared::new(1.0f32.to_bits(), false);
    let mut s = vec![0.5f32.to_bits(), (-0.25f32).to_bits()];
    let vol = shared.volume();
    shared.apply_f32(&mut s, vol, &vec![1, 2]);
    assert_eq!(s, [0.5f32.to_bits(), (-0.25f32).to_bits()]);
    assert_eq!(f32::from_bits(shared.peak.take()), 0.5);

    shared.muted.store(true, Ordering::Relaxed);
    let vol = shared.volume();
    let made = scaled(&s, vol);
    shared.apply_f32(&mut s, vol, &made);
    assert_eq!(s, [0.0f32.to_bits(), (-0.0f32).to_bits()]);
    let mut loud = vec![0.5f32.to_bits(), (-0.75f32).to_bits()];
    let made = scaled(&loud, 2.0f32.to_bits());
    let level = apply_volume(&mut loud, 2.0f32.to_bits(), &made);
    assert_eq!(f32::from_bits(level), 1.5);
    assert_eq!(loud, made);
    assert_eq!(volume_of(7, true), 0);
    assert_eq!(volume_of(7, false), 7);
}

#[test]
fn unity_is_within_a_ten_thousandth() {
    for near in [1.0f32, 1.0001, 0.9999, 1.00009, 0.99991, 1.0002, 0.9998] {
        let at = near.to_bits();
        for x in at - 3..at + 4 {
            let v = f32::from_bits(x);
            assert_eq!(unity(x), (v - 1.0).abs() <= 1e-4, "{v}");
        }
    }
    for other in [0.0f32, -1.0, 0.5, 2.0, f32::NAN, f32::INFINITY] {
        assert!(!unity(other.to_bits()));
    }
}

#[test]
fn values_are_compared_as_numbers() {
    let values = [
        0.0f32,
        -0.0,
        1.0,
        -1.0,
        0.25,
        f32::NAN,
        f32::INFINITY,
        f32::NEG_INFINITY,
        f32::MIN_POSITIVE,
        1e-45,
    ];
    for a in values {
        for b in values {
            assert_eq!(exceeds(a.to_bits(), b.to_bits()), a > b, "{a} {b}");
        }
        let kept = if a.is_finite() { a.clamp(0.0, 1.0) } else { 1.0 };
        assert_eq!(f32::from_bits(unit(a.to_bits())), kept, "{a}");
    }
    let loud: Vec<u32> = [0.1f32, -0.9, f32::NAN, 0.3]
        .iter()
        .map(|v| v.to_bits())
        .collect();
    assert_eq!(f32::from_bits(peak(&loud)), 0.9);
    assert_eq!(peak(&[]), 0);
}

fn spec(rate: u32, speakers: Speakers, format: SampleFormat) -> AudioSpec {
    AudioSpec {
        rate,
        speakers,
        format,
    }
}

#[test]
fn resamplers_are_set_up_for_both_sides() {
    let src = spec(44_100, Speakers::Mono, SampleFormat::Float);
    let dst = spec(48_000, Speakers::FivePointOne, SampleFormat::FloatPlanar);
    let (rs, setup) = Resampler::new(dst, src);
    assert_eq!(rs.plane_count(), 6);
    assert_eq!(setup.in_format, 3);
    assert_eq!(setup.out_format, 8);
    assert_eq!((setup.in_rate, setup.out_rate), (44_100, 48_000));
    assert_eq!(setup.in_layout, Layout::Usual(1));
    assert_eq!(setup.matrix, Some(mono_upmix(6)));
    assert!(!setup.always_filter);
    let (rs, setup) = Resampler::adjustable(spec(1, Speakers::Stereo, SampleFormat::Float), dst);
    assert_eq!(rs.plane_count(), 1);
    assert_eq!(setup.matrix, None);
    assert!(setup.always_filter);
    assert_eq!(
        channel_layout(Speakers::FourPointOne),
        Layout::Mask {
            channels: 5,
            mask: LAYOUT_4POINT1
        }
    );
    assert_eq!(av_sample_format(SampleFormat::S16Planar), 6);
}

#[test]
fn mono_is_heard_everywhere_but_on_some_bass() {
    let rows = [
        "10000000", "11000000", "11000000", "11110000", "11101000", "11111100", "11101110",
        "11101111",
    ];
    for (i, row) in rows.iter().enumerate() {
        let expected: Vec<bool> = row.chars().map(|c| c == '1').collect();
        assert_eq!(mono_upmix(i + 1), expected, "{} channels", i + 1);
    }
}

#[test]
fn there_is_room_for_what_comes_out() {
    let src = spec(44_100, Speakers::Stereo, SampleFormat::Float);
    let dst = spec(48_000, Speakers::Stereo, SampleFormat::FloatPlanar);
    let (mut rs, _) = Resampler::new(dst, src);
    assert_eq!(rs.resample(0, 441), 480);
    assert_eq!(rs.plane(0).len(), 1920);
    assert_eq!(rs.plane(1).len(), 1920);
    assert_eq!(rs.resample(16, 100), 480);
    assert_eq!(rs.resample(16, 441), 498);
    assert_eq!(rs.plane(1).len(), 498 * 4);
    rs.plane_mut(1, &vec![1, 2, 3]);
    assert_eq!(&rs.plane(1)[..4], &[1, 2, 3, 0]);
    assert_eq!(rs.plane(0)[0], 0);
    assert_eq!(rs.converted(480), Some(480));
    assert_eq!(rs.converted(-22), None);
}

#[test]
fn corrections_are_handed_over_once() {
    let dst = spec(48_000, Speakers::Stereo, SampleFormat::Float);
    let (mut rs, _) = Resampler::adjustable(dst, dst);
    assert_eq!(rs.drift_distance(), 172_800_000);
    assert!(!rs.set_drift(0));
    assert!(rs.set_drift(5));
    rs.drift_set(5, -1);
    assert!(rs.set_drift(5));
    rs.drift_set(5, 0);
    assert!(!rs.set_drift(5));
    let (fast, _) = Resampler::adjustable(
        spec(4_000_000, Speakers::Stereo, SampleFormat::Float),
        dst,
    );
    assert_eq!(fast.drift_distance(), u32::MAX);
}

#[test]
fn a_level_is_held_until_the_queue_jumps() {
    let mut phase = DriftPhase::new();
    let quiet = Reading {
        settled: true,
        jumped: false,
        window_full: true,
        first_window: false,
        level_known: false,
    };
    assert_eq!(
        phase.update(Reading {
            settled: false,
            ..quiet
        }),
        DriftStep::Settle
    );
    assert_eq!(
        phase.update(Reading {
            window_full: false,
            ..quiet
        }),
        DriftStep::Gather
    );
    assert_eq!(
        phase.update(Reading {
            first_window: true,
            ..quiet
        }),
        DriftStep::Seek {
            restart: true,
            lock: false
        }
    );
    assert!(!phase.report(true));
    assert_eq!(
        phase.update(Reading {
            level_known: true,
            ..quiet
        }),
        DriftStep::Seek {
            restart: false,
            lock: true
        }
    );
    assert_eq!(phase.update(quiet), DriftStep::Correct);
    assert!(phase.report(true) && !phase.report(false));
    assert_eq!(
        phase.update(Reading {
            jumped: true,
            ..quiet
        }),
        DriftStep::Relock
    );
    assert!(!phase.locked);
}
