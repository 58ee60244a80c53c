//! Windows: layouts, devices, the capture thread and the render buffer.

use audio_mirror::audio::format::{SampleFormat, Speakers};
use audio_mirror::audio::message::{Kind, Message};
use audio_mirror::audio::wasapi::{
    capture_speakers, captured_output, default_device_changed, enumerate, hr, init_monitor_client,
    initialize_capture, is_self_monitor, lost_client, monitor_speakers, on_audio, reopened_client,
    CaptureStep, CaptureThread, ClientAction, ClientEvent, Listing, MonitorStep, PacketAction,
    PacketEvent, PacketFit, Packets, RenderCounter, Signal, SourceType, ThreadAction, ThreadEvent,
    WaveFormat, KSAUDIO_SPEAKER_5POINT1, KSAUDIO_SPEAKER_5POINT1_SURROUND, KSAUDIO_SPEAKER_7POINT1,
    KSAUDIO_SPEAKER_STEREO, WAVE_FORMAT_EXTENSIBLE,
};
use audio_mirror::audio::{CaptureState, MonitorState, SourceKind, SystemEvent, DESKTOP};

#[test]
fn speaker_masks_follow_obs_tables() {
    assert_eq!(
        capture_speakers(KSAUDIO_SPEAKER_STEREO, 2),
        Speakers::Stereo
    );
    assert_eq!(
        capture_speakers(KSAUDIO_SPEAKER_5POINT1_SURROUND, 6),
        Speakers::FivePointOne
    );
    assert_eq!(
        capture_speakers(KSAUDIO_SPEAKER_5POINT1, 6),
        Speakers::FivePointOne
    );
    assert_eq!(
        monitor_speakers(KSAUDIO_SPEAKER_7POINT1, 8),
        Speakers::SevenPointOne
    );
    assert_eq!(monitor_speakers(0, 7), Speakers::Unknown);
}

#[test]
fn source_ids() {
    assert!(SourceType::parse(DESKTOP).unwrap() == SourceType::DefaultOutput);
    assert!(SourceType::parse("input:{x}").unwrap().is_input());
    assert!(SourceType::parse("nope").is_err());
    assert_eq!(captured_output("output:abc", &None).as_deref(), Some("abc"));
    assert_eq!(captured_output("input:abc", &None), None);
}

#[test]
fn desktop_audio_is_the_default_output() {
    let default = Some("dev".to_string());
    assert_eq!(captured_output(DESKTOP, &default).as_deref(), Some("dev"));
    assert_eq!(captured_output(DESKTOP, &None), None);
    assert!(is_self_monitor(DESKTOP, &default, "dev"));
    assert!(!is_self_monitor(DESKTOP, &default, "other"));
    assert!(is_self_monitor("output:other", &default, "other"));
    assert_eq!(
        SourceType::parse("nope").unwrap_err(),
        Kind::UnknownSource.detail("nope")
    );
}

#[test]
fn codes_are_eight_digits() {
    assert_eq!(
        hr(Kind::WasapiGetDevice, -2147024891).to_string(),
        "Failed to get device: 80070005"
    );
    assert_eq!(
        hr(Kind::WasapiGetDevice, 0).to_string(),
        "Failed to get device: 00000000"
    );
}

#[test]
fn wave_formats_have_a_mask_where_they_say_so() {
    let plain = WaveFormat {
        tag: 3,
        rate: 44_100,
        channels: 6,
        mask: 0xb,
        block_align: 24,
    };
    assert_eq!(plain.channel_mask(), 0);
    assert_eq!(plain.capture_spec().speakers, Speakers::FivePointOne);
    assert_eq!(plain.capture_spec().format, SampleFormat::Float);
    assert_eq!(plain.frame_bytes(10), 240);
    let masked = WaveFormat {
        tag: WAVE_FORMAT_EXTENSIBLE,
        ..plain
    };
    assert_eq!(masked.channel_mask(), 0xb);
    assert_eq!(masked.monitor_spec().speakers, Speakers::TwoPointOne);
    assert_eq!(masked.monitor_spec().rate, 44_100);
}

#[test]
fn every_device_is_listed() {
    let listing = Listing {
        default_out: Some("o2".to_string()),
        default_in: Some("i1".to_string()),
        renders: vec![
            ("o1".to_string(), "One".to_string()),
            ("o2".to_string(), "Two".to_string()),
        ],
        captures: vec![("i1".to_string(), "Mic".to_string())],
    };
    let list = enumerate(&Ok(listing)).unwrap();
    assert_eq!(list.sources.len(), 4);
    assert_eq!(list.sources[0].captures_output.as_deref(), Some("o2"));
    assert_eq!(list.sources[1].id, "output:o1");
    assert!(!list.sources[1].is_default);
    assert!(list.sources[2].is_default);
    assert_eq!(list.sources[2].kind, SourceKind::Loopback);
    assert_eq!(list.sources[3].id, "input:i1");
    assert!(list.sources[3].is_default);
    assert_eq!(list.outputs[1].id, "o2");
    assert!(list.outputs[1].is_default);
    assert_eq!(
        enumerate(&Err("no sound".to_string())).unwrap_err(),
        Kind::System.detail("no sound")
    );
}

#[test]
fn captures_open_in_order() {
    let input = initialize_capture(&SourceType::Input("x".to_string()));
    assert_eq!(
        input,
        vec![
            CaptureStep::Enumerator,
            CaptureStep::Device,
            CaptureStep::Activate,
            CaptureStep::MixFormat,
            CaptureStep::Initialize,
            CaptureStep::CaptureClient,
            CaptureStep::EventHandle,
            CaptureStep::Start,
        ]
    );
    let desktop = initialize_capture(&SourceType::DefaultOutput);
    assert_eq!(desktop.len(), 14);
    assert_eq!(desktop[1], CaptureStep::DefaultEndpoint);
    assert_eq!(desktop[5], CaptureStep::ClearActivate);
    assert_eq!(
        CaptureStep::Start.failed(1),
        Kind::WasapiStartCapture.detail("00000001")
    );
    assert_eq!(init_monitor_client().len(), 11);
    assert_eq!(
        MonitorStep::Resampler.failed(5),
        Message::from(Kind::Resampler)
    );
    assert_eq!(
        MonitorStep::Device.failed(-1),
        Kind::WasapiGetDevice.detail("FFFFFFFF")
    );
}

#[test]
fn the_capture_thread_reconnects() {
    let mut thread = CaptureThread::new(false);
    assert_eq!(
        thread.step(ThreadEvent::Begin).action,
        ThreadAction::Initialize
    );
    let why = Message::from(Kind::DeviceUnavailable);
    let failed = thread.step(ThreadEvent::Initialized(Err(why.clone())));
    assert!(failed.warn);
    assert_eq!(failed.state, Some(CaptureState::Retrying(why.clone())));
    assert_eq!(failed.action, ThreadAction::WaitToReconnect { ms: 3000 });
    let again = thread.step(ThreadEvent::Initialized(Err(why)));
    assert!(!again.warn);
    assert_eq!(
        thread.step(ThreadEvent::Waited(Signal::Timeout)).action,
        ThreadAction::Initialize
    );
    let active = thread.step(ThreadEvent::Initialized(Ok("48 kHz, stereo".to_string())));
    assert_eq!(active.action, ThreadAction::Wait { wake_ms: Some(10) });
    assert_eq!(
        thread.step(ThreadEvent::Signalled(Signal::Receive)).action,
        ThreadAction::Process
    );
    assert_eq!(
        thread.step(ThreadEvent::Processed(true)).action,
        ThreadAction::Wait { wake_ms: Some(10) }
    );
    let restart = thread.step(ThreadEvent::Signalled(Signal::Restart));
    assert!(restart.reset_restart);
    assert_eq!(restart.state, Some(CaptureState::Starting));
    assert_eq!(
        thread.step(ThreadEvent::Waited(Signal::Stop)).action,
        ThreadAction::Finish
    );
    assert_eq!(
        CaptureThread::new(true)
            .step(ThreadEvent::Processed(true))
            .action,
        ThreadAction::Wait { wake_ms: None }
    );
}

#[test]
fn packets_are_read_until_there_are_none() {
    let mut packets = Packets::new(8);
    assert_eq!(packets.step(PacketEvent::Begin), PacketAction::AskSize);
    assert_eq!(
        packets.step(PacketEvent::Size(Some(480))),
        PacketAction::GetBuffer
    );
    assert_eq!(
        packets.step(PacketEvent::Buffer(Some((480, true)))),
        PacketAction::Deliver {
            frames: 480,
            bytes: 3840,
            silent: true
        }
    );
    packets.lengthen(3840);
    assert!(packets.silent(3840).iter().all(|b| *b == 0));
    assert_eq!(packets.step(PacketEvent::Delivered), PacketAction::AskSize);
    assert_eq!(
        packets.step(PacketEvent::Size(Some(0))),
        PacketAction::Return(true)
    );
    assert_eq!(
        packets.step(PacketEvent::Size(None)),
        PacketAction::Return(false)
    );
    assert_eq!(
        packets.step(PacketEvent::Buffer(None)),
        PacketAction::Return(false)
    );
}

#[test]
fn packets_without_room_are_skipped() {
    let mut counter = RenderCounter::new(1000);
    assert_eq!(counter.fit(400, 600), PacketFit::Write);
    counter.wrote(400);
    assert_eq!(counter.written, 400);
    let lines: Vec<bool> = (0..8)
        .map(|_| counter.fit(401, 600) == PacketFit::Skip { worth_a_line: true })
        .collect();
    assert_eq!(
        lines,
        vec![true, true, false, true, false, false, false, true]
    );
    assert_eq!(
        counter.fit(1, 2000),
        PacketFit::Skip {
            worth_a_line: false
        }
    );
    assert_eq!(
        lost_client(),
        MonitorState::Reconnecting(Message::from(Kind::DeviceUnavailable))
    );
    assert_eq!(
        reopened_client(&"48 kHz, stereo".to_string()),
        MonitorState::Playing {
            format: "48 kHz, stereo".to_string()
        }
    );
    for (event, action) in [
        (ClientEvent::Packet { open: true }, ClientAction::Write),
        (ClientEvent::Packet { open: false }, ClientAction::Open),
        (ClientEvent::Opened(true), ClientAction::Write),
        (ClientEvent::Opened(false), ClientAction::Done),
        (ClientEvent::Wrote(true), ClientAction::Done),
        (ClientEvent::Wrote(false), ClientAction::Drop),
    ] {
        assert_eq!(on_audio(event), action);
    }
    assert_eq!(
        default_device_changed(true, true),
        Some(SystemEvent::DefaultOutputChanged)
    );
    assert_eq!(default_device_changed(true, false), None);
    assert_eq!(default_device_changed(false, true), None);
}
