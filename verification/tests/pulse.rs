//! Linux: formats, devices and the backlog of a monitor.

use audio_mirror::audio::format::{SampleFormat, Speakers};
use audio_mirror::audio::message::{Kind, Message};
use audio_mirror::audio::pulse::{
    audio_spec, capture_state_changed, capture_target, channel_map, device_name, devices_match,
    enumerate, is_self_monitor, monitor_formats, monitor_state, monitor_target, obs_format,
    resampler_made, resolve_source, stream_connected, stream_info, stream_made, stream_name,
    usable_stream, watch_event, watch_server_info, Backlog, CaptureClock, ChannelPosition,
    DeviceEntry, Facility, MonitorTarget, PulseFormat, ReadStep, ServerDefaults, StreamInfo,
    StreamState, WatchStep, WriteAction, WriteEvent,
};
use audio_mirror::audio::{CaptureState, MonitorState, SourceKind, SystemEvent};

#[test]
fn monitor_names_match_like_obs() {
    assert!(devices_match(
        "alsa_output.pci.analog-stereo.monitor",
        "alsa_output.pci.analog-stereo"
    ));
    assert!(!devices_match(
        "alsa_input.usb",
        "alsa_output.pci.analog-stereo"
    ));
}

#[test]
fn channel_maps_follow_obs() {
    assert_eq!(channel_map(Speakers::Mono).channels, 1);
    assert_eq!(channel_map(Speakers::Mono).map[0], ChannelPosition::Mono);
    assert_eq!(
        channel_map(Speakers::TwoPointOne).map[2],
        ChannelPosition::Lfe
    );
    assert_eq!(channel_map(Speakers::SevenPointOne).channels, 8);
}

#[test]
fn unsupported_formats_fall_back() {
    let info = stream_info(StreamInfo {
        format: PulseFormat::S24le,
        rate: 44_100,
        channels: 7,
    });
    assert_eq!(info.format, PulseFormat::F32le);
    assert_eq!(info.channels, 2);
}

#[test]
fn handled_formats_are_kept() {
    for (format, sample) in [
        (PulseFormat::U8, SampleFormat::U8),
        (PulseFormat::S16le, SampleFormat::S16),
        (PulseFormat::S32le, SampleFormat::S32),
        (PulseFormat::F32le, SampleFormat::Float),
    ] {
        let info = stream_info(StreamInfo {
            format,
            rate: 96_000,
            channels: 6,
        });
        assert_eq!(info.format, format);
        assert_eq!(obs_format(format), Some(sample));
        assert_eq!(audio_spec(info).format, sample);
        assert_eq!(audio_spec(info).speakers, Speakers::FivePointOne);
    }
    assert_eq!(obs_format(PulseFormat::S16be), None);
}

fn entry(name: &str, description: &str, monitor: Option<&str>) -> DeviceEntry {
    DeviceEntry {
        name: name.to_string(),
        description: description.to_string(),
        monitor: monitor.map(|m| m.to_string()),
    }
}

#[test]
fn sinks_and_sources_are_listed() {
    let server = Some(ServerDefaults {
        default_sink: "spk".to_string(),
        default_source: "mic".to_string(),
    });
    let list = enumerate(
        &server,
        &vec![
            entry("spk", "Speakers", Some("spk.monitor")),
            entry("odd", "Odd", None),
        ],
        &vec![
            entry("spk.monitor", "Monitor", Some("spk")),
            entry("mic", "Microphone", None),
        ],
    )
    .unwrap();
    let ids: Vec<&str> = list.sources.iter().map(|s| s.id.as_str()).collect();
    assert_eq!(ids, vec!["desktop", "output:spk.monitor", "input:mic"]);
    assert_eq!(list.sources[0].captures_output.as_deref(), Some("spk"));
    assert_eq!(list.sources[1].kind, SourceKind::Loopback);
    assert!(list.sources[1].is_default && list.sources[2].is_default);
    assert_eq!(list.outputs.len(), 2);
    assert!(list.outputs[0].is_default && !list.outputs[1].is_default);
    assert!(enumerate(&None, &vec![], &vec![]).is_err());
}

#[test]
fn sources_are_resolved() {
    let default = Some("spk".to_string());
    assert_eq!(
        resolve_source("desktop", &default),
        Ok(("spk.monitor".to_string(), true))
    );
    assert_eq!(
        resolve_source("output:x.monitor", &None),
        Ok(("x.monitor".to_string(), true))
    );
    assert_eq!(
        resolve_source("input:mic", &None),
        Ok(("mic".to_string(), false))
    );
    assert_eq!(
        resolve_source("nope", &None),
        Err(Kind::UnknownSource.detail("nope"))
    );
    assert!(resolve_source("desktop", &None).is_err());
    assert!(is_self_monitor("desktop", &default, "spk"));
    assert!(is_self_monitor("output:x.monitor", &default, "x"));
    assert!(!is_self_monitor("input:x", &default, "x"));
}

#[test]
fn names_with_a_zero_are_refused() {
    assert_eq!(device_name("alsa"), Ok(()));
    assert_eq!(
        device_name("al\0sa"),
        Err(Kind::InvalidDeviceName.detail("al\0sa"))
    );
    assert!(capture_target("input:a\0", &None).is_err());
    let target = capture_target("desktop", &Some("spk".to_string())).unwrap();
    assert_eq!(target.device, "spk.monitor");
    assert!(target.is_output && target.is_default);
    assert_eq!(stream_name(&target), "Desktop Audio");
    assert_eq!(
        stream_name(&capture_target("input:mic", &None).unwrap()),
        "Audio Input"
    );
    assert_eq!(
        monitor_target("desktop", &Some("spk".to_string()), "spk"),
        Ok(MonitorTarget::Ignored)
    );
    assert_eq!(
        monitor_target("desktop", &None, "spk"),
        Ok(MonitorTarget::Open)
    );
    assert!(monitor_target("desktop", &None, "\0").is_err());
}

#[test]
fn each_failure_has_its_message() {
    let info = StreamInfo {
        format: PulseFormat::S16le,
        rate: 44_100,
        channels: 2,
    };
    assert_eq!(
        usable_stream(None, true),
        Err(Message::from(Kind::SourceInfo))
    );
    assert_eq!(
        usable_stream(Some(info), false),
        Err(Message::from(Kind::SampleSpec))
    );
    assert!(usable_stream(Some(info), true).is_ok());
    assert_eq!(
        monitor_formats(false, Some(info), true),
        Err(Message::from(Kind::ServerInfo))
    );
    let (to, from) = monitor_formats(true, Some(info), true).unwrap();
    assert_eq!(to.format, SampleFormat::S16);
    assert_eq!(from.rate, 48_000);
    assert_eq!(stream_made(false), Err(Message::from(Kind::StreamCreate)));
    assert_eq!(
        stream_connected(false),
        Err(Message::from(Kind::StreamConnect))
    );
    assert_eq!(resampler_made(false), Err(Message::from(Kind::Resampler)));
    assert_eq!(resampler_made(true), Ok(()));
}

#[test]
fn notifications_are_told_apart() {
    assert_eq!(watch_event(Facility::Server, true), WatchStep::AskServer);
    assert_eq!(watch_event(Facility::Sink, true), WatchStep::Nothing);
    assert_eq!(
        watch_event(Facility::Source, false),
        WatchStep::Tell(SystemEvent::DevicesChanged)
    );
    assert_eq!(watch_event(Facility::Other, false), WatchStep::Nothing);
    let mut current = "a".to_string();
    assert_eq!(watch_server_info(&mut current, "a".to_string()), None);
    assert_eq!(
        watch_server_info(&mut current, "b".to_string()),
        Some(SystemEvent::DefaultOutputChanged)
    );
    assert_eq!(current, "b");
}

#[test]
fn stream_states_are_reported() {
    let format = "48 kHz, stereo".to_string();
    assert_eq!(
        capture_state_changed(StreamState::Ready, &format),
        Some(CaptureState::Active {
            format: format.clone()
        })
    );
    assert_eq!(capture_state_changed(StreamState::Creating, &format), None);
    assert_eq!(
        capture_state_changed(StreamState::Terminated, &format),
        Some(CaptureState::Failed(Message::from(
            Kind::DeviceDisconnected
        )))
    );
    assert_eq!(
        monitor_state(StreamState::Creating, &format),
        MonitorState::Playing {
            format: format.clone()
        }
    );
    assert_eq!(
        monitor_state(StreamState::Failed, &format),
        MonitorState::Reconnecting(Message::from(Kind::DeviceDisconnected))
    );
}

#[test]
fn the_first_half_second_is_dropped() {
    let mut clock = CaptureClock {
        rate: 48_000,
        bytes_per_frame: 8,
        first_ts: 0,
    };
    assert_eq!(clock.read(0, false, 0), ReadStep::Nothing);
    assert_eq!(clock.read(3840, true, 1_000_000_000), ReadStep::Skip);
    assert_eq!(clock.read(3840, false, 1_010_000_000), ReadStep::Skip);
    assert_eq!(clock.first_ts, 1_500_000_000);
    assert_eq!(clock.read(3840, false, 1_510_000_000), ReadStep::Skip);
    assert_eq!(
        clock.read(3840, false, 1_510_000_001),
        ReadStep::Deliver { frames: 480 }
    );
}

#[test]
fn a_backlog_plays_once_it_is_full() {
    let mut b = Backlog::new(4, 2, 10);
    b.extend(&[1, 2, 3]);
    assert_eq!(b.begin(), (0, WriteAction::AskCorked));
    assert_eq!(
        b.stream_write(WriteEvent::Corked(true)),
        WriteAction::Done
    );
    b.extend(&[4, 5]);
    assert_eq!(
        b.stream_write(WriteEvent::Corked(true)),
        WriteAction::Uncork
    );
    assert_eq!(
        b.stream_write(WriteEvent::Uncorked),
        WriteAction::AskRoom(5)
    );
    assert_eq!(
        b.stream_write(WriteEvent::Room(Some(6))),
        WriteAction::Cancel
    );
    assert_eq!(
        b.stream_write(WriteEvent::Room(Some(2))),
        WriteAction::Write(vec![1, 2])
    );
    assert_eq!(
        b.stream_write(WriteEvent::Written),
        WriteAction::AskRoom(3)
    );
    assert_eq!(b.stream_write(WriteEvent::Room(None)), WriteAction::Done);
    assert_eq!(b.len(), 3);
}

#[test]
fn a_backlog_that_grows_is_cut() {
    let mut b = Backlog::new(2, 2, 10);
    b.extend(&[0, 1, 2, 3, 4, 5, 6, 7, 8, 9, 10, 11, 12]);
    assert_eq!(b.trim(), 1);
    assert_eq!(b.len(), 10);
    assert_eq!(b.trim(), 0);
    b.extend(&[13, 14, 15, 16]);
    assert_eq!(b.begin(), (2, WriteAction::Grow(10)));
    assert_eq!(b.len(), 10);
    assert_eq!(b.stream_write(WriteEvent::Grown), WriteAction::AskCorked);
    assert_eq!(b.tlength, 10);
    assert_eq!(b.take(1), Some(vec![7]));
}
