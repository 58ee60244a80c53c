//! The queue-based engine.

use audio_mirror::audio::OutputSpec;
use audio_mirror::controls::ControlTable;
use audio_mirror::devices::{enumerate, resolve_source, DeviceFacts, SourceKind};
use audio_mirror::dsp::PlayState;
use audio_mirror::engine::{
    describe, describe_as, fault_message, pipe_format, Capture, EngineConfig, NodeState,
    OutputStep, Sinks, StreamError, Supervisor, TickStep, DEFAULT_POLL, MAX_OUTPUTS,
    RECONNECT_INTERVAL,
};
use audio_mirror::ring::CaptureCmd;

const ONE: u32 = 0x3f80_0000;

fn output(id: &str) -> OutputSpec {
    OutputSpec {
        id: id.to_string(),
        gain: ONE,
        muted: false,
    }
}

fn config(source: &str, outputs: &[&str]) -> EngineConfig {
    EngineConfig {
        source: source.to_string(),
        outputs: outputs.iter().map(|id| output(id)).collect(),
        latency_ms: 40,
    }
}

#[test]
fn engine_describes_common_layouts() {
    assert_eq!(describe(48_000, 2, "f32"), "48 kHz, stereo, f32");
    assert_eq!(describe(44_100, 6, "i16"), "44.1 kHz, 5.1, i16");
}

#[test]
fn unusual_layouts_are_counted() {
    assert_eq!(describe(11_025, 3, "u8"), "11.025 kHz, 3 channels, u8");
    assert_eq!(describe(22_050, 1, "u8"), "22.05 kHz, mono, u8");
    assert_eq!(describe_as("1.5", 8, "i32"), "1.5 kHz, 7.1, i32");
    for rate in [0u32, 1, 999, 8_000, 44_100, 47_999, 192_000, 16_383_999] {
        assert_eq!(
            describe(rate, 2, "x"),
            format!("{} kHz, stereo, x", rate as f32 / 1000.0)
        );
    }
}

#[test]
fn outputs_play_once_the_source_is_open() {
    let mut now = 10_000_000_000;
    let mut sup = Supervisor::new(now);
    assert_eq!(sup.begin_tick(None, now), TickStep::Done);
    assert!(!sup.publish().running);

    let keys = sup.apply(config("desktop", &["spk", "hdmi"]), now);
    assert!(keys.is_empty());
    assert_eq!(sup.begin_tick(None, now), TickStep::BuildCapture);
    let (capture, mut commands) = Capture::new(
        48_000,
        2,
        Some("spk".to_string()),
        "48 kHz, stereo, f32".to_string(),
    );
    assert_eq!(sup.capture_built(Ok(capture), now), TickStep::Outputs);
    assert_eq!(sup.output_count(), 2);

    let recorded = sup.slot_of(0);
    assert_eq!(sup.output_step(recorded, None, now), OutputStep::Skip);
    let other = sup.slot_of(1);
    assert_eq!(
        sup.output_step(other, None, now),
        OutputStep::Build {
            rate: 48_000,
            channels: 2,
            target_frames: 1920
        }
    );
    let key = sup
        .output_built(other, Ok("48 kHz, stereo, f32".to_string()), now)
        .unwrap();
    let (producer, _consumer) = rtrb::RingBuffer::<u32>::new(16);
    assert!(sup.send_all(vec![CaptureCmd::Add(key, producer)], now));
    let mut sinks = Sinks::new();
    assert!(sinks.handle_next(&mut commands));
    assert!(!sinks.handle_next(&mut commands));
    assert_eq!(sinks.entries.len(), 1);

    let status = sup.publish();
    assert!(status.running);
    assert_eq!(status.outputs[0].state, NodeState::Blocked);
    let status = status.with_meters(7, &vec![None, Some((9, PlayState::Playing))]);
    assert_eq!(status.source.peak, 7);
    assert_eq!(status.outputs[1].peak, 9);
    assert_eq!(status.outputs[1].state, NodeState::Playing);

    now += RECONNECT_INTERVAL;
    assert_eq!(
        sup.output_step(other, Some("gone".to_string()), now),
        OutputStep::Remove { key }
    );
    let status = sup.publish();
    assert_eq!(status.outputs[1].state, NodeState::Error);
    assert_eq!(status.outputs[1].message.as_deref(), Some("gone"));
    assert_eq!(sup.output_step(other, None, now), OutputStep::Skip);
    now += RECONNECT_INTERVAL;
    assert!(matches!(
        sup.output_step(other, None, now),
        OutputStep::Build { .. }
    ));
    assert_eq!(
        sup.output_built(other, Err("busy".to_string()), now),
        None
    );
    assert_eq!(sup.output_step(other, None, now), OutputStep::Skip);
}

#[test]
fn desktop_audio_follows_the_default_output() {
    let now = 10_000_000_000;
    let mut sup = Supervisor::new(now);
    sup.apply(config("desktop", &["hdmi"]), now);
    let (capture, _commands) = Capture::new(48_000, 2, Some("spk".to_string()), String::new());
    sup.begin_tick(None, now);
    sup.capture_built(Ok(capture), now);
    let later = now + DEFAULT_POLL;
    assert_eq!(sup.begin_tick(None, later - 1), TickStep::Outputs);
    assert_eq!(sup.begin_tick(None, later), TickStep::AskDefault);
    assert_eq!(
        sup.default_known(Some("spk".to_string()), later),
        TickStep::Outputs
    );
    assert_eq!(
        sup.default_known(Some("hdmi".to_string()), later),
        TickStep::BuildCapture
    );
    assert!(sup.capture.is_none());
}

#[test]
fn a_capture_that_fails_waits() {
    let now = 10_000_000_000;
    let mut sup = Supervisor::new(now);
    sup.apply(config("mic", &["spk"]), now);
    sup.begin_tick(None, now);
    assert_eq!(
        sup.capture_built(Err("missing".to_string()), now),
        TickStep::Done
    );
    assert_eq!(sup.publish().source.message.as_deref(), Some("missing"));
    assert_eq!(
        sup.begin_tick(None, now + RECONNECT_INTERVAL - 1),
        TickStep::Done
    );
    assert_eq!(
        sup.begin_tick(None, now + RECONNECT_INTERVAL),
        TickStep::BuildCapture
    );
    sup.stop();
    assert!(!sup.publish().running);
}

#[test]
fn a_full_command_queue_starts_over() {
    let now = 10_000_000_000;
    let mut sup = Supervisor::new(now);
    sup.apply(config("mic", &["spk"]), now);
    sup.begin_tick(None, now);
    let (capture, _commands) = Capture::new(48_000, 2, None, String::new());
    sup.capture_built(Ok(capture), now);
    assert!(sup.send_all(vec![], now));
    let many: Vec<CaptureCmd> = (0..200).map(CaptureCmd::Remove).collect();
    assert!(!sup.send_all(many, now));
    assert!(sup.capture.is_none());
    assert_eq!(
        sup.source_error.as_deref(),
        Some("Restarting the stream")
    );
}

#[test]
fn a_new_queue_takes_as_much_as_it_holds() {
    let now = 5_000_000_000;
    let mut sup = Supervisor::new(now);
    assert!(sup.send_all(vec![CaptureCmd::Remove(1)], now));
    sup.apply(config("mic", &["spk"]), now);
    sup.begin_tick(None, now);
    let (capture, mut commands) = Capture::new(48_000, 2, None, String::new());
    sup.capture_built(Ok(capture), now);
    let fill: Vec<CaptureCmd> = (0..2 * MAX_OUTPUTS as u64).map(CaptureCmd::Remove).collect();
    assert!(sup.send_all(fill, now));
    assert!(sup.send_all(vec![], now));
    assert!(sup.capture.is_some());
    let mut sinks = Sinks::new();
    for _ in 0..2 * MAX_OUTPUTS {
        assert!(sinks.handle_next(&mut commands));
    }
    assert!(!sinks.handle_next(&mut commands));
    sup.settle(true, now);
    assert!(sup.capture.is_some());
    sup.settle(false, now);
    assert!(sup.capture.is_none());
    assert_eq!(
        sup.source_error.as_deref(),
        Some("Restarting the stream")
    );
}

#[test]
fn outputs_switched_off_give_their_keys_back() {
    let now = 10_000_000_000;
    let mut sup = Supervisor::new(now);
    sup.apply(config("mic", &["a", "b"]), now);
    sup.begin_tick(None, now);
    let (capture, _commands) = Capture::new(48_000, 2, None, String::new());
    sup.capture_built(Ok(capture), now);
    let a = sup.slot_of(0);
    sup.output_step(a, None, now);
    let key = sup.output_built(a, Ok("x".to_string()), now).unwrap();
    assert_eq!(sup.apply(config("mic", &["b"]), now), vec![key]);
    assert!(sup.capture.is_some());
    assert!(sup.apply(config("other", &["b"]), now).is_empty());
    assert!(sup.capture.is_none());
}

#[test]
fn samples_reach_every_sink() {
    let mut sinks = Sinks::new();
    let (p1, mut c1) = rtrb::RingBuffer::<u32>::new(4);
    let (p2, mut c2) = rtrb::RingBuffer::<u32>::new(64);
    sinks.handle(CaptureCmd::Add(1, p1));
    sinks.handle(CaptureCmd::Add(2, p2));
    sinks.fan_out(&[1, 2, 3, 4, 5, 6], 2);
    assert_eq!(c1.slots(), 4);
    assert_eq!(c2.slots(), 6);
    assert_eq!(c1.pop(), Ok(1));
    assert_eq!(c2.pop(), Ok(1));
    sinks.handle(CaptureCmd::Remove(1));
    assert_eq!(sinks.entries.len(), 1);
    assert_eq!(sinks.entries[0].0, 2);
}

#[test]
fn stream_reports_are_told_apart() {
    assert_eq!(fault_message(StreamError::Xrun, "x"), None);
    assert_eq!(fault_message(StreamError::RealtimeDenied, "x"), None);
    assert_eq!(fault_message(StreamError::DeviceChanged, "x"), None);
    assert_eq!(
        fault_message(StreamError::DeviceNotAvailable, "x").as_deref(),
        Some("Device disconnected")
    );
    assert_eq!(
        fault_message(StreamError::PermissionDenied, "x").as_deref(),
        Some("Access denied by the system")
    );
    assert_eq!(
        fault_message(StreamError::Other, "x").as_deref(),
        Some("x")
    );
    assert_eq!(pipe_format(48_000, 2, 44_100, 2, 10).target_frames, 64);
    assert_eq!(pipe_format(48_000, 2, 44_100, 2, 100).target_frames, 100);
}

#[test]
fn controls_follow_the_configuration() {
    let mut table = ControlTable::new();
    table.update(&vec![output("a"), output("b")]);
    table.set_gain("a", 5);
    table.set_muted("b", true);
    table.set_gain("c", 5);
    assert_eq!(table.get("a"), Some((5, false)));
    assert_eq!(table.get("b"), Some((ONE, true)));
    assert_eq!(table.get("c"), None);
    table.replace(&vec![output("b")]);
    assert_eq!(table.get("a"), None);
    assert_eq!(table.get("b"), Some((ONE, false)));
    assert_eq!(table.ids(), vec!["b"]);
}

#[test]
fn queue_devices_are_listed() {
    let facts = |id: &str, input: bool, output: bool| DeviceFacts {
        id: Some(id.to_string()),
        name: id.to_uppercase(),
        is_input: input,
        is_output: output,
    };
    let list = enumerate(
        &vec![facts("spk", false, true), facts("mic", true, false)],
        &Some("spk".to_string()),
        &Some("mic".to_string()),
        true,
    );
    assert_eq!(list.sources[0].id, "desktop");
    assert_eq!(list.sources[0].kind, SourceKind::Desktop);
    assert_eq!(list.outputs.len(), 1);
    assert!(list.outputs[0].is_default);
    let chosen = resolve_source("desktop", &Some("spk".to_string()), true).unwrap();
    assert_eq!(chosen.device, "spk");
    assert_eq!(chosen.loopback_of.as_deref(), Some("spk"));
    assert!(resolve_source("desktop", &None, true).is_err());
}
