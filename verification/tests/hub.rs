//! The source side: formats, callbacks and peaks.

use audio_mirror::audio::format::{
    as_f32, samples_from, AudioSpec, ByteOrder, ObsAudio, SampleFormat, SourceAudio, Speakers,
};
use audio_mirror::audio::hub::{obs_spec, AudioCallback, Route, SourceHub};
use std::sync::{Arc, Mutex};

struct Probe(Mutex<Vec<(u32, f32)>>);

impl AudioCallback for Probe {
    fn on_audio(&self, audio: &ObsAudio) {
        self.0.lock().unwrap().push((
            audio.frames,
            f32::from_bits(audio.planes[1][audio.frames as usize - 1]),
        ));
    }
}

fn interleaved(frames: usize, channels: usize, value: f32) -> Vec<u8> {
    std::iter::repeat(value)
        .take(frames * channels)
        .flat_map(f32::to_ne_bytes)
        .collect()
}

fn signal(hub: &SourceHub<Arc<Probe>>, frames: usize) {
    let data = hub.audio(frames as u32);
    for turn in 0..hub.callback_count() {
        hub.callback_at(turn).on_audio(&data);
    }
}

/// Hands a packet to the hub; mono is copied to both channels.
fn deliver(hub: &mut SourceHub<Arc<Probe>>, audio: &SourceAudio) {
    let mut route = hub.route(audio.spec);
    if route == Route::CreateResampler {
        route = hub.resampler_created(true);
    }
    match route {
        Route::PassThrough => {
            if let Some(n) = hub.output_audio(audio) {
                signal(hub, n);
            }
        }
        Route::Resample => {
            let samples = as_f32(audio.planes[0]);
            let n = samples.len();
            hub.output_converted(&samples, &samples, n);
            signal(hub, n);
        }
        _ => {}
    }
}

#[test]
fn converts_then_signals_callbacks() {
    let mut hub = SourceHub::new();
    let probe = Arc::new(Probe(Mutex::new(Vec::new())));
    let id = hub.add_callback(probe.clone());

    let spec = AudioSpec {
        rate: 48_000,
        speakers: Speakers::Mono,
        format: SampleFormat::Float,
    };
    let buf = interleaved(480, 1, 0.5);
    deliver(
        &mut hub,
        &SourceAudio {
            planes: &[&buf],
            frames: 480,
            spec,
        },
    );
    let calls = probe.0.lock().unwrap().clone();
    assert_eq!(calls.len(), 1);
    assert_eq!(calls[0].0, 480);
    assert!(
        (calls[0].1 - 0.5).abs() < 1e-3,
        "mono reaches the right channel"
    );
    assert!(f32::from_bits(hub.take_peak()) > 0.49);

    hub.remove_callback(id);
    deliver(
        &mut hub,
        &SourceAudio {
            planes: &[&buf],
            frames: 480,
            spec,
        },
    );
    assert_eq!(probe.0.lock().unwrap().len(), 1);
}

#[test]
fn obs_format_passes_through() {
    let mut hub = SourceHub::new();
    let probe = Arc::new(Probe(Mutex::new(Vec::new())));
    hub.add_callback(probe.clone());
    let l = interleaved(100, 1, 0.1);
    let r = interleaved(100, 1, 0.2);
    deliver(
        &mut hub,
        &SourceAudio {
            planes: &[&l, &r],
            frames: 100,
            spec: obs_spec(),
        },
    );
    assert_eq!(probe.0.lock().unwrap()[0], (100, 0.2));
}

#[test]
fn a_packet_that_owes_samples_is_dropped() {
    let mut hub: SourceHub<Arc<Probe>> = SourceHub::new();
    let l = interleaved(100, 1, 0.5);
    let r = interleaved(99, 1, 0.5);
    assert_eq!(hub.route(obs_spec()), Route::PassThrough);
    let short = hub.output_audio(&SourceAudio {
        planes: &[&l, &r],
        frames: 100,
        spec: obs_spec(),
    });
    assert_eq!(short, None);
    let missing = hub.output_audio(&SourceAudio {
        planes: &[&l],
        frames: 100,
        spec: obs_spec(),
    });
    assert_eq!(missing, None);
    let foreign = hub.output_audio(&SourceAudio {
        planes: &[&l, &l],
        frames: 100,
        spec: AudioSpec {
            rate: 44_100,
            ..obs_spec()
        },
    });
    assert_eq!(foreign, None);
    assert_eq!(hub.take_peak(), 0);
}

#[test]
fn a_format_without_a_converter_is_dropped_until_it_changes() {
    let mut hub: SourceHub<Arc<Probe>> = SourceHub::new();
    let odd = AudioSpec {
        rate: 44_100,
        speakers: Speakers::Unknown,
        format: SampleFormat::S16,
    };
    assert_eq!(hub.route(odd), Route::CreateResampler);
    assert_eq!(hub.resampler_created(false), Route::Drop);
    assert_eq!(hub.route(odd), Route::Drop);
    assert_eq!(hub.route(obs_spec()), Route::PassThrough);
    assert_eq!(hub.route(odd), Route::CreateResampler);
    assert_eq!(hub.resampler_created(true), Route::Resample);
    assert_eq!(hub.route(odd), Route::Resample);
    hub.output_converted(&vec![0], &vec![0], 1);
    hub.take_peak();
    assert_eq!(hub.route(odd), Route::Resample);
}

#[test]
fn the_newest_callback_comes_first() {
    let mut hub = SourceHub::new();
    let first = hub.add_callback('a');
    let second = hub.add_callback('b');
    assert_eq!((first, second), (1, 2));
    assert!(hub.has_number());
    assert_eq!(*hub.callback_at(0), 'b');
    assert_eq!(*hub.callback_at(1), 'a');
    hub.remove_callback(second);
    assert_eq!(hub.callback_count(), 1);
    assert_eq!(hub.add_callback('c'), 3);
    assert_eq!(*hub.callback_at(0), 'c');
}

#[test]
fn the_peak_is_the_loudest_of_both_channels() {
    let mut hub: SourceHub<char> = SourceHub::new();
    let left: Vec<u32> = [0.25f32, -0.75].iter().map(|v| v.to_bits()).collect();
    let right: Vec<u32> = [0.5f32, f32::NAN].iter().map(|v| v.to_bits()).collect();
    hub.output_converted(&left, &right, 2);
    assert_eq!(f32::from_bits(hub.take_peak()), 0.75);
    assert_eq!(hub.take_peak(), 0);
}

#[test]
fn samples_are_read_in_the_order_of_the_machine() {
    let bytes: Vec<u8> = [0.5f32, -2.0]
        .iter()
        .flat_map(|v| v.to_ne_bytes())
        .collect();
    let read = as_f32(&bytes);
    assert_eq!(read, vec![0.5f32.to_bits(), (-2.0f32).to_bits()]);
    assert_eq!(
        samples_from(ByteOrder::Big, &[0x3f, 0x80, 0, 0, 9]),
        vec![1.0f32.to_bits()]
    );
    assert_eq!(
        samples_from(ByteOrder::Little, &[0, 0, 0x80, 0x3f]),
        vec![1.0f32.to_bits()]
    );
}
