//! macOS: formats, devices, the input unit and the audio queue.

use audio_mirror::audio::coreaudio::{
    address, asked_channels, ca_success, convert_ca_format, create_monitor, device_is_input,
    device_notification, enumerate, fourcc, init_buffer, is_self_monitor, main_display,
    monitor_state, names_loopback_driver, queue_format, rendered_bytes, rendered_planes,
    start_capture, start_desktop, stream_config, stream_layout, stream_stopped, waiting_for_device,
    CaptureTarget, CoreAudioData, DesktopCall, DesktopFailure, DesktopStep, DeviceFacts, InitStep,
    QueueCall, QueueState, QueueStep, Teardown, UnitCall, FLAG_FLOAT, FLAG_NON_INTERLEAVED,
    FLAG_SIGNED_INTEGER, FORMAT_LINEAR_PCM,
};
use audio_mirror::audio::format::{SampleFormat, Speakers};
use audio_mirror::audio::message::{Kind, Message};
use audio_mirror::audio::{CaptureState, MonitorState, SourceKind};

#[test]
fn loopback_drivers_are_output_captures() {
    assert!(!device_is_input("BlackHole 2ch"));
    assert!(device_is_input("MacBook Pro Microphone"));
}

#[test]
fn ca_formats() {
    assert_eq!(
        convert_ca_format(FLAG_FLOAT | FLAG_NON_INTERLEAVED, 32),
        Some(SampleFormat::FloatPlanar)
    );
    assert_eq!(
        convert_ca_format(FLAG_SIGNED_INTEGER, 16),
        Some(SampleFormat::S16)
    );
    assert_eq!(convert_ca_format(0, 16), None);
}

#[test]
fn every_flag_combination_matches_its_bits() {
    for flags in 0u32..64 {
        for bits in [8u32, 16, 24, 32] {
            let planar = flags & FLAG_NON_INTERLEAVED != 0;
            let expected = if flags & FLAG_FLOAT != 0 {
                Some((SampleFormat::Float, SampleFormat::FloatPlanar))
            } else if flags & FLAG_SIGNED_INTEGER == 0 {
                if bits == 8 {
                    Some((SampleFormat::U8, SampleFormat::U8Planar))
                } else {
                    None
                }
            } else if bits == 16 {
                Some((SampleFormat::S16, SampleFormat::S16Planar))
            } else if bits == 32 {
                Some((SampleFormat::S32, SampleFormat::S32Planar))
            } else {
                None
            };
            let expected = expected.map(|(packed, apart)| if planar { apart } else { packed });
            assert_eq!(convert_ca_format(flags, bits), expected);
        }
    }
}

#[test]
fn every_driver_is_recognised_in_capitals_too() {
    for name in [
        "Soundflower (2ch)",
        "WavTap",
        "SoundSiphon",
        "iShowU Audio Capture",
        "Loopback Audio",
        "GROUNDCONTROL",
        "VBCable",
    ] {
        assert!(!device_is_input(name), "{name}");
    }
    assert!(names_loopback_driver("my blackhole"));
    assert!(!names_loopback_driver("My BLACKHOLE"));
}

#[test]
fn four_characters_make_a_number() {
    assert_eq!(fourcc(b"lpcm"), FORMAT_LINEAR_PCM);
    assert_eq!(fourcc(&[0, 0, 1, 2]), 258);
    let at = address(fourcc(b"livn"), fourcc(b"glob"));
    assert_eq!((at.selector, at.scope, at.element), (0x6c69_766e, 0x676c_6f62, 0));
    assert!(ca_success(0));
    assert!(!ca_success(-50));
}

fn facts(id: u32, uid: &str, name: &str, outputs: bool, inputs: bool) -> DeviceFacts {
    DeviceFacts {
        id,
        uid: if uid.is_empty() {
            None
        } else {
            Some(uid.to_string())
        },
        name: name.to_string(),
        has_outputs: outputs,
        has_inputs: inputs,
    }
}

#[test]
fn devices_are_listed_as_sources_and_outputs() {
    let list = enumerate(
        &vec![
            facts(1, "mic", "Microphone", false, true),
            facts(2, "", "Nameless", true, true),
            facts(3, "spk", "Speakers", true, false),
            facts(4, "bh", "BlackHole 2ch", true, true),
        ],
        Some(3),
        Some(1),
    );
    assert_eq!(list.sources.len(), 3);
    assert_eq!(list.sources[0].id, "desktop");
    assert_eq!(list.sources[0].kind, SourceKind::Desktop);
    assert_eq!(list.sources[0].captures_output, None);
    assert_eq!(list.sources[1].id, "input:mic");
    assert!(list.sources[1].is_default);
    assert_eq!(list.sources[1].kind, SourceKind::Capture);
    assert_eq!(list.sources[2].id, "output:bh");
    assert_eq!(list.sources[2].kind, SourceKind::Loopback);
    assert_eq!(list.sources[2].captures_output.as_deref(), Some("bh"));
    assert_eq!(list.outputs.len(), 2);
    assert_eq!(list.outputs[0].id, "spk");
    assert!(list.outputs[0].is_default);
    assert!(!list.outputs[1].is_default);
    assert!(is_self_monitor(&list.sources[2].id, "bh"));
    assert!(!is_self_monitor(&list.sources[1].id, "mic"));
    assert!(!is_self_monitor("desktop", "spk"));
}

#[test]
fn sources_lead_to_what_they_open() {
    assert_eq!(start_capture("desktop"), Ok(CaptureTarget::Desktop));
    assert_eq!(
        start_capture("input:mic"),
        Ok(CaptureTarget::Input("mic".to_string()))
    );
    assert_eq!(
        start_capture("output:bh"),
        Ok(CaptureTarget::Input("bh".to_string()))
    );
    let refused = start_capture("nope").unwrap_err();
    assert_eq!(refused, Kind::UnknownSource.detail("nope"));
}

#[test]
fn screen_captures_start_step_by_step() {
    let mut call = DesktopCall::Content;
    let mut seen = vec![call];
    loop {
        match start_desktop(call, None) {
            DesktopStep::Call(next) => {
                call = next;
                seen.push(next);
            }
            DesktopStep::Running(state) => {
                assert_eq!(
                    state,
                    CaptureState::Active {
                        format: "48 kHz, stereo".to_string()
                    }
                );
                break;
            }
            DesktopStep::Failed(m) => panic!("{}", m.to_string()),
        }
    }
    assert_eq!(
        seen,
        vec![
            DesktopCall::Content,
            DesktopCall::Display,
            DesktopCall::VideoOutput,
            DesktopCall::AudioOutput,
            DesktopCall::Start
        ]
    );
    for (failure, message) in [
        (DesktopFailure::Timeout, Message::from(Kind::ScreenTimeout)),
        (DesktopFailure::Denied, Message::from(Kind::ScreenPermission)),
        (DesktopFailure::NoDisplay, Message::from(Kind::MainDisplay)),
        (
            DesktopFailure::VideoOutput(-3801),
            Kind::VideoStreamOutput.detail("-3801"),
        ),
        (
            DesktopFailure::AudioOutput(i64::MIN),
            Kind::AudioStreamOutput.detail("-9223372036854775808"),
        ),
        (DesktopFailure::Start, Message::from(Kind::CaptureStart)),
    ] {
        assert_eq!(
            start_desktop(DesktopCall::Content, Some(failure)),
            DesktopStep::Failed(message)
        );
    }
    assert_eq!(
        stream_stopped(-3821),
        CaptureState::Failed(Kind::StreamStopped.detail("-3821"))
    );
    assert!(stream_config().excludes_current_process_audio);
    assert_eq!(main_display(&vec![7, 9, 9], 9), Some(1));
    assert_eq!(main_display(&vec![7], 9), None);
}

#[test]
fn stream_buffers_are_cut_into_channels() {
    let l = stream_layout(2, 4, 3840).unwrap();
    assert_eq!(l.channels, 2);
    assert_eq!(l.plane_len, 1920);
    assert_eq!(l.frames, 480);
    assert_eq!(l.speakers, Speakers::Stereo);
    assert_eq!(stream_layout(0, 4, 3840), None);
    let wide = stream_layout(10, 0, 100).unwrap();
    assert_eq!((wide.channels, wide.plane_len, wide.frames), (8, 10, 10));
}

#[test]
fn an_input_opens_in_order_and_closes_what_it_opened() {
    let mut data = CoreAudioData::new();
    let mut step = data.init();
    let mut calls = Vec::new();
    while let InitStep::Call(call) = step {
        calls.push(call);
        let ok = call != UnitCall::CheckFormat
            || data.init_format(
                FORMAT_LINEAR_PCM,
                FLAG_FLOAT | FLAG_NON_INTERLEAVED,
                32,
                44_100,
                asked_channels(100),
            );
        step = data.returned(call, ok);
    }
    assert_eq!(step, InitStep::Ready { opened: true });
    assert_eq!(
        data.opened(),
        CaptureState::Active {
            format: "44.1 kHz, 7.1".to_string()
        }
    );
    assert_eq!(calls.len(), 18);
    assert_eq!(calls[0], UnitCall::FindDevice);
    assert_eq!(data.init(), InitStep::Ready { opened: false });
    assert_eq!(data.spec.rate, 44_100);
    assert_eq!(data.spec.speakers, Speakers::SevenPointOne);
    assert_eq!(data.spec.format, SampleFormat::FloatPlanar);
    assert_eq!(
        data.uninit(),
        vec![
            Teardown::Stop,
            Teardown::Uninitialize,
            Teardown::RemoveHooks,
            Teardown::Dispose,
            Teardown::FreeBuffers
        ]
    );
    assert_eq!(data.uninit(), vec![]);
}

#[test]
fn an_input_that_does_not_open_is_taken_down() {
    let mut data = CoreAudioData::new();
    assert_eq!(data.returned(UnitCall::FindDevice, false), InitStep::Failed);
    assert_eq!(data.uninit(), vec![]);
    data.returned(UnitCall::NewInstance, true);
    assert!(!data.init_format(1, FLAG_FLOAT, 32, 48_000, 2));
    assert!(!data.init_format(FORMAT_LINEAR_PCM, 0, 24, 48_000, 2));
    assert_eq!(
        data.returned(UnitCall::CheckFormat, false),
        InitStep::Failed
    );
    assert_eq!(
        data.uninit(),
        vec![
            Teardown::Uninitialize,
            Teardown::RemoveHooks,
            Teardown::Dispose
        ]
    );
}

#[test]
fn a_lost_input_is_closed_and_opened_again() {
    let mut data = CoreAudioData::new();
    let turn = data.reconnect(&CaptureState::Starting);
    assert_eq!((turn.close, turn.open), (false, true));
    data.returned(UnitCall::NewInstance, true);
    let turn = data.reconnect(&CaptureState::Starting);
    assert_eq!((turn.close, turn.open), (false, false));
    let turn = data.reconnect(&device_notification());
    assert_eq!((turn.close, turn.open), (true, true));
    assert_eq!(
        waiting_for_device(),
        CaptureState::Retrying(Message::from(Kind::WaitingForDevice))
    );
}

#[test]
fn render_buffers_have_room_for_every_channel() {
    let b = init_buffer(512, 2, 8, 16);
    assert_eq!((b.bytes, b.count, b.list_words), (2048, 2, 5));
    let none = init_buffer(512, 0, 8, 16);
    assert_eq!((none.count, none.list_words), (0, 3));
    assert_eq!(rendered_bytes(512, SampleFormat::S16, 2048), 1024);
    assert_eq!(rendered_bytes(512, SampleFormat::Float, 100), 100);
    assert_eq!(rendered_planes(3), 3);
    assert_eq!(rendered_planes(64), 8);
}

#[test]
fn queues_fill_their_buffers_in_order() {
    let mut q = QueueState::new(4, 12);
    let orders = q.on_audio(&vec![1, 2, 3, 4, 5, 6, 7, 8]);
    assert!(orders.fills.is_empty() && !orders.start && !orders.pause);
    let orders = q.on_audio(&vec![9, 10, 11, 12, 13]);
    assert_eq!(orders.fills.len(), 3);
    assert_eq!(orders.fills[0].buffer, 0);
    assert_eq!(orders.fills[0].bytes, vec![1, 2, 3, 4]);
    assert_eq!(orders.fills[2].buffer, 2);
    assert_eq!(orders.fills[2].bytes, vec![9, 10, 11, 12]);
    assert!(!orders.start);

    let orders = q.buffer_audio(1);
    assert!(orders.fills.is_empty() && !orders.pause);
    let orders = q.on_audio(&vec![14, 15, 16, 17]);
    assert_eq!(orders.fills.len(), 1);
    assert_eq!(orders.fills[0].buffer, 1);
    assert_eq!(orders.fills[0].bytes, vec![13, 14, 15, 16]);
}

#[test]
fn a_queue_that_runs_dry_pauses_and_waits() {
    let mut q = QueueState::new(2, 6);
    assert_eq!(q.on_audio(&vec![0; 6]).fills.len(), 3);
    assert!(!q.buffer_audio(0).pause);
    assert!(!q.buffer_audio(1).pause);
    assert!(q.buffer_audio(2).pause);
    assert!(q.on_audio(&vec![1; 5]).fills.is_empty());
    let orders = q.on_audio(&vec![2]);
    assert_eq!(orders.fills.len(), 3);
    assert!(orders.start);
    assert!(q.fill_buffer().is_none());
}

#[test]
fn a_queue_that_is_not_drained_is_cut_back() {
    let format = queue_format();
    assert_eq!((format.buffer_size, format.max_backlog), (11_520, 153_600));
    let mut q = QueueState::new(2, 6);
    let orders = q.on_audio(&(0..12).collect());
    assert_eq!((orders.fills.len(), orders.dropped), (3, 0));
    let orders = q.on_audio(&vec![12, 13, 14]);
    assert_eq!((orders.fills.len(), orders.dropped), (0, 3));
    assert_eq!(q.new_data, [9, 10, 11, 12, 13, 14]);
    assert_eq!(q.buffer_audio(0).fills[0].bytes, vec![9, 10]);
    assert_eq!(q.on_audio(&vec![15]).dropped, 0);
}

#[test]
fn monitors_come_up_call_by_call() {
    assert_eq!(create_monitor("output:bh", "bh"), None);
    let mut call = create_monitor("desktop", "spk").unwrap();
    let mut allocated = 0;
    let mut calls = 0;
    loop {
        calls += 1;
        if call == QueueCall::AllocateBuffer {
            allocated += 1;
        }
        match call.returned(true, allocated) {
            QueueStep::Call(next) => call = next,
            step => {
                assert_eq!(step, QueueStep::Running);
                break;
            }
        }
    }
    assert_eq!((calls, allocated), (8, 3));
    for (call, kind) in [
        (QueueCall::Resampler, Kind::Resampler),
        (QueueCall::NewOutput, Kind::QueueCreate),
        (QueueCall::SetDevice, Kind::OutputUnavailable),
        (QueueCall::SetVolume, Kind::QueueVolume),
        (QueueCall::AllocateBuffer, Kind::QueueBuffers),
        (QueueCall::Start, Kind::QueueStart),
    ] {
        assert_eq!(
            call.returned(false, 0),
            QueueStep::Failed(Message::from(kind))
        );
    }
    let format = queue_format();
    assert_eq!(format.buffer_size, 11_520);
    assert_eq!(format.bytes_per_frame, 8);
    assert_eq!(
        monitor_state(true, "48 kHz, stereo"),
        MonitorState::Playing {
            format: "48 kHz, stereo".to_string()
        }
    );
    assert_eq!(
        monitor_state(false, ""),
        MonitorState::Reconnecting(Message::from(Kind::DeviceDisconnected))
    );
}
