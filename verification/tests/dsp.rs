//! Queues, channels and the reader of an output.

use audio_mirror::dsp::{
    needs_mix, push_frames, remap_channels, silence, OutputShared, Pipe, PipeFormat, PlayState,
    Render, Start, CHUNK_FRAMES,
};
use audio_mirror::float::AtomicF32;
use rtrb::Producer;
use std::sync::atomic::Ordering;

fn bits(samples: &[f32]) -> Vec<u32> {
    samples.iter().map(|s| s.to_bits()).collect()
}

fn floats(samples: &[u32]) -> Vec<f32> {
    samples.iter().map(|s| f32::from_bits(*s)).collect()
}

#[test]
fn atomic_peak_keeps_maximum() {
    let p = AtomicF32::new(0f32.to_bits());
    p.raise(0.3f32.to_bits());
    p.raise(0.1f32.to_bits());
    assert_eq!(f32::from_bits(p.take()), 0.3);
    assert_eq!(f32::from_bits(p.load()), 0.0);
}

#[test]
fn remap_mono_to_stereo_and_back() {
    let mut st = bits(&[0.0; 4]);
    remap_channels(&bits(&[0.5, -0.25]), 1, &[], &mut st, 2);
    assert_eq!(floats(&st), [0.5, 0.5, -0.25, -0.25]);

    let stereo = [1.0f32, 0.0, 0.2, 0.4];
    assert!(needs_mix(2, 1));
    let mixed: Vec<f32> = stereo.chunks(2).map(|f| (f[0] + f[1]) * 0.5).collect();
    let mut mono = bits(&[0.0; 2]);
    remap_channels(&bits(&stereo), 2, &bits(&mixed), &mut mono, 1);
    let mono = floats(&mono);
    assert!((mono[0] - 0.5).abs() < 1e-6);
    assert!((mono[1] - 0.3).abs() < 1e-6);
}

#[test]
fn remap_stereo_to_surround_fills_front_only() {
    let mut dst = bits(&[9.0; 6]);
    remap_channels(&bits(&[0.1, 0.2]), 2, &[], &mut dst, 6);
    assert_eq!(floats(&dst), [0.1, 0.2, 0.0, 0.0, 0.0, 0.0]);
}

#[test]
fn remapping_keeps_what_fits() {
    assert!(!needs_mix(1, 2) && !needs_mix(2, 2) && !needs_mix(2, 6) && needs_mix(6, 2));
    let mut dst = bits(&[7.0; 5]);
    remap_channels(&bits(&[1.0, 2.0, 3.0, 4.0]), 2, &[], &mut dst, 2);
    assert_eq!(floats(&dst), [1.0, 2.0, 3.0, 4.0, 7.0]);
    let mut less = bits(&[0.0; 4]);
    remap_channels(
        &bits(&[1.0, 2.0, 3.0, 4.0, 5.0, 6.0]),
        6,
        &[],
        &mut less,
        4,
    );
    assert_eq!(floats(&less), [1.0, 2.0, 3.0, 4.0]);
}

#[test]
fn push_never_blocks_when_full() {
    let (mut p, _c) = rtrb::RingBuffer::<u32>::new(8);
    assert_eq!(push_frames(&mut p, &[0; 6], 2), 3);
    assert_eq!(push_frames(&mut p, &[0; 6], 2), 1);
    assert_eq!(push_frames(&mut p, &[0; 6], 2), 0);
}

#[test]
fn queues_hand_over_what_was_pushed() {
    let fmt = format(48_000, 48_000);
    assert_eq!(fmt.ring_capacity(), 96_000);
    let (mut p, mut c) = fmt.queue();
    assert_eq!(push_frames(&mut p, &[1, 2, 3, 4, 5], 2), 2);
    assert_eq!(c.pop(), Ok(1));
    assert_eq!(c.pop(), Ok(2));
    assert_eq!(c.pop(), Ok(3));
    assert_eq!(c.pop(), Ok(4));
    assert!(c.pop().is_err());
}

fn format(in_rate: u32, out_rate: u32) -> PipeFormat {
    PipeFormat {
        in_rate,
        in_channels: 2,
        out_rate,
        out_channels: 2,
        target_frames: in_rate as usize / 20,
    }
}

fn pipe(in_rate: u32, out_rate: u32, gain: f32) -> (Producer<u32>, Pipe, OutputShared) {
    let fmt = format(in_rate, out_rate);
    let (p, c) = fmt.queue();
    let pipe = Pipe::new(fmt, c, CHUNK_FRAMES);
    (p, pipe, OutputShared::new(gain.to_bits(), false))
}

/// Plays a packet at equal rates: blocks are handed back as they are.
fn render(pipe: &mut Pipe, shared: &OutputShared, out: &mut Vec<u32>) {
    if pipe.begin(shared) == Start::Silence {
        silence(out, 0);
        return;
    }
    let mut at = 0;
    loop {
        match pipe.render(out, at) {
            Render::Finished => break,
            Render::Wrote(n) => at += n,
            Render::Refill => {
                if pipe.next_block(CHUNK_FRAMES) {
                    let block = pipe.in_buf.clone();
                    pipe.block_ready(&block, &Vec::new());
                } else {
                    pipe.run_dry(out, at, shared);
                    break;
                }
            }
        }
    }
}

fn sine(frames: usize, rate: u32, offset: usize) -> Vec<u32> {
    (0..frames)
        .flat_map(|i| {
            let v = ((i + offset) as f32 * 440.0 * std::f32::consts::TAU / rate as f32).sin() * 0.5;
            [v.to_bits(), v.to_bits()]
        })
        .collect()
}

#[test]
fn pipe_prebuffers_before_playing() {
    let (mut p, mut pipe, shared) = pipe(48_000, 48_000, 1.0);
    let mut out = bits(&[1.0; 960]);
    push_frames(&mut p, &sine(1000, 48_000, 0), 2);
    render(&mut pipe, &shared, &mut out);
    assert!(out.iter().all(|s| *s == 0));
    assert_eq!(shared.play_state(), PlayState::Buffering);

    push_frames(&mut p, &sine(2000, 48_000, 1000), 2);
    render(&mut pipe, &shared, &mut out);
    assert_eq!(shared.play_state(), PlayState::Playing);
    assert_eq!(out, sine(480, 48_000, 0));
}

#[test]
fn pipe_recovers_after_underrun() {
    let (mut p, mut pipe, shared) = pipe(48_000, 48_000, 1.0);
    let mut out = vec![0; 480 * 2];
    push_frames(&mut p, &sine(3000, 48_000, 0), 2);
    for _ in 0..10 {
        render(&mut pipe, &shared, &mut out);
    }
    assert!(shared.underruns.load(Ordering::Relaxed) >= 1);
    assert_eq!(shared.play_state(), PlayState::Buffering);

    push_frames(&mut p, &sine(3000, 48_000, 3000), 2);
    render(&mut pipe, &shared, &mut out);
    assert_eq!(shared.play_state(), PlayState::Playing);
}

#[test]
fn a_dry_pipe_plays_what_was_left() {
    let (mut p, mut pipe, shared) = pipe(48_000, 48_000, 1.0);
    let frames = 2400 / CHUNK_FRAMES * CHUNK_FRAMES + CHUNK_FRAMES;
    let played = sine(frames, 48_000, 0);
    push_frames(&mut p, &played, 2);
    let mut out = vec![1; frames * 2 + 10];
    render(&mut pipe, &shared, &mut out);
    assert_eq!(out[..frames * 2], played[..]);
    assert!(out[frames * 2..].iter().all(|s| *s == 0));
    assert_eq!(shared.play_state(), PlayState::Buffering);
    assert_eq!(pipe.play_state(), PlayState::Buffering);
    assert_eq!(pipe.underruns, 1);
    assert_eq!(shared.underruns.load(Ordering::Relaxed), 1);
    render(&mut pipe, &shared, &mut out);
    assert!(out.iter().all(|s| *s == 0));
    assert_eq!(pipe.underruns, 1);
}

#[test]
fn pipe_trims_excess_latency() {
    let (mut p, mut pipe, shared) = pipe(48_000, 48_000, 1.0);
    let mut out = vec![0; 480 * 2];
    push_frames(&mut p, &sine(40_000, 48_000, 0), 2);
    render(&mut pipe, &shared, &mut out);
    assert!(pipe.queued_frames() < 2400 + 480);
}

#[test]
fn the_ratio_is_looked_at_once_in_a_while() {
    let (_p, mut pipe, _) = pipe(48_000, 44_100, 1.0);
    let due: Vec<bool> = (0..16).map(|_| pipe.drift_due()).collect();
    assert_eq!(due.iter().filter(|d| **d).count(), 2);
    assert!(due[7] && due[15]);
}

#[test]
fn a_muted_output_has_no_gain() {
    let shared = OutputShared::new(0.5f32.to_bits(), false);
    assert_eq!(f32::from_bits(shared.target_gain()), 0.5);
    shared.muted.store(true, Ordering::Relaxed);
    assert_eq!(shared.target_gain(), 0);
}
