//! Linux backend, on PulseAudio: what is captured and monitored, and how.
//!
//! - Capture: desktop audio is the default sink's monitor, opened again when
//!   the default sink changes; 25 ms fragments; the first 500 ms are dropped.
//! - Monitoring: a corked stream with a 25 ms target, uncorked once that much
//!   audio is queued, with the server's buffer grown when audio piles up. The
//!   stream is pinned to its sink, so a sink that goes away fails the stream,
//!   and the backlog is capped, so a device that cannot keep up loses audio
//!   rather than gaining latency without end.

use crate::audio::format::{
    common_spec, AudioSpec, SampleFormat, Speakers, OBS_FORMAT, OBS_SAMPLE_RATE, OBS_SPEAKERS,
};
use crate::audio::message::{Kind, Message};
use crate::audio::{
    CaptureState, DeviceList, MonitorState, OutputInfo, SourceInfo, SourceKind, SystemEvent,
    DESKTOP, DESKTOP_NAME,
};
use crate::text::{same, strip_prefix};
use crate::text;
use std::collections::VecDeque;
use vstd::prelude::*;

verus! {

pub const OUTPUT_PREFIX: &'static str = "output:";

pub const INPUT_PREFIX: &'static str = "input:";

pub const MONITOR_SUFFIX: &'static str = ".monitor";

/// The fragments of the capture and the target of the monitor.
pub const BUFFER_USEC: u64 = 25_000;

/// How long the start of a capture is dropped.
pub const STARTUP_TIMEOUT_NS: u64 = 500_000_000;

/// Leaves an attribute of a buffer to the server.
pub const SERVER_DEFAULT: u32 = u32::MAX;

/// The sample formats of the server.
#[derive(Debug, Clone, Copy, PartialEq, Eq, Structural)]
pub enum PulseFormat {
    U8,
    ALaw,
    ULaw,
    S16le,
    S16be,
    F32le,
    F32be,
    S32le,
    S32be,
    S24le,
    S24be,
    S24In32le,
    S24In32be,
    Invalid,
}

/// The channel positions in use.
#[derive(Debug, Clone, Copy, PartialEq, Eq, Structural)]
pub enum ChannelPosition {
    Mono,
    FrontLeft,
    FrontRight,
    FrontCenter,
    RearCenter,
    RearLeft,
    RearRight,
    Lfe,
    SideLeft,
    SideRight,
}

/// Which channel goes where: the first `channels` positions count.
#[derive(Debug, Clone, Copy, PartialEq, Eq)]
pub struct ChannelMap {
    pub channels: u8,
    pub map: [ChannelPosition; 8],
}

#[derive(Debug, PartialEq, Eq)]
pub struct ServerDefaults {
    pub default_sink: String,
    pub default_source: String,
}

#[derive(Debug, Clone, Copy, PartialEq, Eq, Structural)]
pub struct StreamInfo {
    pub format: PulseFormat,
    pub rate: u32,
    pub channels: u8,
}

/// A sink or a source, as the server lists it.
#[derive(Debug, PartialEq, Eq)]
pub struct DeviceEntry {
    pub name: String,
    pub description: String,
    /// For sources: the sink it monitors. For sinks: its monitor.
    pub monitor: Option<String>,
}

/// What a notification of the server is about.
#[derive(Debug, Clone, Copy, PartialEq, Eq, Structural)]
pub enum Facility {
    Server,
    Sink,
    Source,
    Other,
}

/// What to do about a notification.
#[derive(Debug, Clone, Copy, PartialEq, Eq, Structural)]
pub enum WatchStep {
    Nothing,
    /// Ask for the defaults of the server.
    AskServer,
    Tell(SystemEvent),
}

/// Decides about a notification. A sink or a source that merely changed (its
/// volume, say) is not one that came or went.
pub fn watch_event(facility: Facility, change: bool) -> (r: WatchStep)
    ensures
        r == match facility {
            Facility::Server => WatchStep::AskServer,
            Facility::Sink | Facility::Source => if change {
                WatchStep::Nothing
            } else {
                WatchStep::Tell(SystemEvent::DevicesChanged)
            },
            Facility::Other => WatchStep::Nothing,
        },
{
    match facility {
        Facility::Server => WatchStep::AskServer,
        Facility::Other => WatchStep::Nothing,
        _ => if change {
            WatchStep::Nothing
        } else {
            WatchStep::Tell(SystemEvent::DevicesChanged)
        },
    }
}

/// Takes note of the default sink. An event is due where it is another one.
pub fn watch_server_info(current: &mut String, sink: String) -> (r: Option<SystemEvent>)
    ensures
        *final(current) == sink,
        r == if old(current)@ == sink@ {
            None
        } else {
            Some(SystemEvent::DefaultOutputChanged)
        },
{
    let unchanged = same(current.as_str(), sink.as_str());
    *current = sink;
    if unchanged {
        None
    } else {
        Some(SystemEvent::DefaultOutputChanged)
    }
}

/// The sample format that a format of the server stands for, if it is one
/// that is handled.
pub open spec fn handled(format: PulseFormat) -> Option<SampleFormat> {
    match format {
        PulseFormat::U8 => Some(SampleFormat::U8),
        PulseFormat::S16le => Some(SampleFormat::S16),
        PulseFormat::S32le => Some(SampleFormat::S32),
        PulseFormat::F32le => Some(SampleFormat::Float),
        _ => None,
    }
}

pub fn obs_format(format: PulseFormat) -> (r: Option<SampleFormat>)
    ensures
        r == handled(format),
{
    match format {
        PulseFormat::U8 => Some(SampleFormat::U8),
        PulseFormat::S16le => Some(SampleFormat::S16),
        PulseFormat::S32le => Some(SampleFormat::S32),
        PulseFormat::F32le => Some(SampleFormat::Float),
        _ => None,
    }
}

/// What is asked of the server for a device: its own format and channels, or
/// 32-bit float and stereo in place of what is not handled.
pub open spec fn offered(spec: StreamInfo) -> StreamInfo {
    StreamInfo {
        format: if handled(spec.format) is Some {
            spec.format
        } else {
            PulseFormat::F32le
        },
        rate: spec.rate,
        channels: if Speakers::of_count(spec.channels as int) is Unknown {
            2
        } else {
            spec.channels
        },
    }
}

pub fn stream_info(spec: StreamInfo) -> (r: StreamInfo)
    ensures
        r == offered(spec),
{
    let format = match obs_format(spec.format) {
        Some(_) => spec.format,
        None => PulseFormat::F32le,
    };
    let channels: u8 = if Speakers::from_channels(spec.channels as usize) == Speakers::Unknown {
        2
    } else {
        spec.channels
    };
    StreamInfo { format, rate: spec.rate, channels }
}

/// The audio of a stream.
pub open spec fn stream_spec(info: StreamInfo) -> AudioSpec {
    AudioSpec {
        rate: info.rate,
        speakers: Speakers::of_count(info.channels as int),
        format: match handled(info.format) {
            Some(format) => format,
            None => SampleFormat::Float,
        },
    }
}

pub fn audio_spec(info: StreamInfo) -> (r: AudioSpec)
    ensures
        r == stream_spec(info),
{
    AudioSpec {
        rate: info.rate,
        speakers: Speakers::from_channels(info.channels as usize),
        format: match obs_format(info.format) {
            Some(format) => format,
            None => SampleFormat::Float,
        },
    }
}

/// What is offered to the server is always handled: its layout is known and
/// has the channels of the stream, and its format is one of the four.
pub proof fn law_what_is_offered_is_handled(spec: StreamInfo)
    ensures
        handled(offered(spec).format) is Some,
        stream_spec(offered(spec)).speakers.channel_count() == offered(spec).channels,
        offered(offered(spec)) == offered(spec),
{
}

/// The position of channel `i` in a layout.
pub open spec fn position(speakers: Speakers, i: int) -> ChannelPosition {
    if i == 0 {
        if speakers is Mono {
            ChannelPosition::Mono
        } else {
            ChannelPosition::FrontLeft
        }
    } else if i == 1 {
        ChannelPosition::FrontRight
    } else if i == 2 {
        if speakers is TwoPointOne {
            ChannelPosition::Lfe
        } else {
            ChannelPosition::FrontCenter
        }
    } else if i == 3 {
        if speakers is FourPointZero {
            ChannelPosition::RearCenter
        } else {
            ChannelPosition::Lfe
        }
    } else if i == 4 {
        if speakers is FourPointOne {
            ChannelPosition::RearCenter
        } else {
            ChannelPosition::RearLeft
        }
    } else if i == 5 {
        ChannelPosition::RearRight
    } else if i == 6 {
        ChannelPosition::SideLeft
    } else {
        ChannelPosition::SideRight
    }
}

/// The channel map of a layout.
pub fn channel_map(speakers: Speakers) -> (r: ChannelMap)
    ensures
        r.channels == speakers.channel_count(),
        forall|i: int| 0 <= i < 8 ==> #[trigger] r.map@[i] == position(speakers, i),
{
    let first = if speakers == Speakers::Mono {
        ChannelPosition::Mono
    } else {
        ChannelPosition::FrontLeft
    };
    let third = if speakers == Speakers::TwoPointOne {
        ChannelPosition::Lfe
    } else {
        ChannelPosition::FrontCenter
    };
    let fourth = if speakers == Speakers::FourPointZero {
        ChannelPosition::RearCenter
    } else {
        ChannelPosition::Lfe
    };
    let fifth = if speakers == Speakers::FourPointOne {
        ChannelPosition::RearCenter
    } else {
        ChannelPosition::RearLeft
    };
    let map = [
        first,
        ChannelPosition::FrontRight,
        third,
        fourth,
        fifth,
        ChannelPosition::RearRight,
        ChannelPosition::SideLeft,
        ChannelPosition::SideRight,
    ];
    ChannelMap { channels: speakers.channels() as u8, map }
}

/// No position is given to two channels of a layout.
pub proof fn law_channels_have_places_of_their_own(speakers: Speakers, i: int, j: int)
    requires
        0 <= i < j < speakers.channel_count(),
    ensures
        position(speakers, i) != position(speakers, j),
{
}

/// Whether `s` is the entry of the default output as a source.
pub open spec fn is_desktop(s: SourceInfo, defaults: ServerDefaults) -> bool {
    &&& s.id@ == DESKTOP@
    &&& s.name@ == DESKTOP_NAME@
    &&& s.kind is Desktop
    &&& !s.is_default
    &&& s.captures_output == Some(defaults.default_sink)
}

/// Whether `s` is the source that records a sink.
pub open spec fn is_loopback(s: SourceInfo, sink: DeviceEntry, defaults: ServerDefaults) -> bool {
    &&& s.id@ == OUTPUT_PREFIX@ + sink.monitor->0@
    &&& s.name == sink.description
    &&& s.kind is Loopback
    &&& s.is_default == (sink.monitor->0@ == defaults.default_sink@ + MONITOR_SUFFIX@)
    &&& s.captures_output == Some(sink.name)
}

/// Whether `s` is the entry of a source of its own.
pub open spec fn is_input(s: SourceInfo, source: DeviceEntry, defaults: ServerDefaults) -> bool {
    &&& s.id@ == INPUT_PREFIX@ + source.name@
    &&& s.name == source.description
    &&& s.kind is Capture
    &&& s.is_default == (source.name@ == defaults.default_source@)
    &&& s.captures_output is None
}

/// Whether `sources` lists a recording source for each sink that has a
/// monitor, in order.
pub open spec fn lists_loopbacks(
    sources: Seq<SourceInfo>,
    sinks: Seq<DeviceEntry>,
    defaults: ServerDefaults,
) -> bool
    decreases sinks.len(),
{
    if sinks.len() == 0 {
        sources.len() == 0
    } else if sinks.last().monitor is Some {
        &&& sources.len() > 0
        &&& is_loopback(sources.last(), sinks.last(), defaults)
        &&& lists_loopbacks(sources.drop_last(), sinks.drop_last(), defaults)
    } else {
        lists_loopbacks(sources, sinks.drop_last(), defaults)
    }
}

/// Whether `sources` lists each source that is no monitor, in order.
pub open spec fn lists_inputs(
    sources: Seq<SourceInfo>,
    entries: Seq<DeviceEntry>,
    defaults: ServerDefaults,
) -> bool
    decreases entries.len(),
{
    if entries.len() == 0 {
        sources.len() == 0
    } else if entries.last().monitor is None {
        &&& sources.len() > 0
        &&& is_input(sources.last(), entries.last(), defaults)
        &&& lists_inputs(sources.drop_last(), entries.drop_last(), defaults)
    } else {
        lists_inputs(sources, entries.drop_last(), defaults)
    }
}

/// The device list made of what the server tells: the default output, what
/// records a sink, then the other sources; and each sink as an output. An
/// error without a server.
pub fn enumerate(
    server: &Option<ServerDefaults>,
    sinks: &Vec<DeviceEntry>,
    entries: &Vec<DeviceEntry>,
) -> (r: Result<DeviceList, Message>)
    ensures
        match server {
            None => r == Err::<DeviceList, Message>(Kind::PulseUnavailable.plain()),
            Some(defaults) => r matches Ok(list) && {
                &&& list.outputs@.len() == sinks@.len()
                &&& forall|i: int|
                    0 <= i < sinks@.len() ==> {
                        &&& (#[trigger] list.outputs@[i]).id == sinks@[i].name
                        &&& list.outputs@[i].name == sinks@[i].description
                        &&& list.outputs@[i].is_default == (sinks@[i].name@
                            == defaults.default_sink@)
                    }
                &&& exists|loopbacks: Seq<SourceInfo>, inputs: Seq<SourceInfo>|
                    {
                        &&& list.sources@.len() == 1 + loopbacks.len() + inputs.len()
                        &&& is_desktop(list.sources@[0], *defaults)
                        &&& list.sources@.skip(1) == loopbacks + inputs
                        &&& #[trigger] lists_loopbacks(loopbacks, sinks@, *defaults)
                        &&& #[trigger] lists_inputs(inputs, entries@, *defaults)
                    }
            },
        },
{
    let defaults = match server {
        Some(defaults) => defaults,
        None => {
            return Err(Message::from(Kind::PulseUnavailable));
        },
    };
    let mut desktop_monitor = defaults.default_sink.clone();
    desktop_monitor.append(MONITOR_SUFFIX);
    let mut outputs: Vec<OutputInfo> = Vec::new();
    let mut loopbacks: Vec<SourceInfo> = Vec::new();
    let mut inputs: Vec<SourceInfo> = Vec::new();
    let mut i: usize = 0;
    while i < sinks.len()
        invariant
            i <= sinks@.len(),
            desktop_monitor@ == defaults.default_sink@ + MONITOR_SUFFIX@,
            outputs@.len() == i,
            forall|k: int|
                0 <= k < i ==> {
                    &&& (#[trigger] outputs@[k]).id == sinks@[k].name
                    &&& outputs@[k].name == sinks@[k].description
                    &&& outputs@[k].is_default == (sinks@[k].name@ == defaults.default_sink@)
                },
            lists_loopbacks(loopbacks@, sinks@.take(i as int), *defaults),
        decreases sinks@.len() - i,
    {
        let sink = &sinks[i];
        assert(sinks@.take(i + 1).drop_last() =~= sinks@.take(i as int));
        let is_default = same(sink.name.as_str(), defaults.default_sink.as_str());
        if let Some(monitor) = &sink.monitor {
            let ghost before = loopbacks@;
            let mut id = OUTPUT_PREFIX.to_owned();
            id.append(monitor.as_str());
            loopbacks.push(
                SourceInfo {
                    id,
                    name: sink.description.clone(),
                    kind: SourceKind::Loopback,
                    is_default: same(monitor.as_str(), desktop_monitor.as_str()),
                    captures_output: Some(sink.name.clone()),
                },
            );
            assert(loopbacks@.drop_last() =~= before);
        }
        outputs.push(
            OutputInfo {
                id: sink.name.clone(),
                name: sink.description.clone(),
                is_default,
            },
        );
        i += 1;
    }
    assert(sinks@.take(i as int) =~= sinks@);
    let mut k: usize = 0;
    while k < entries.len()
        invariant
            k <= entries@.len(),
            lists_inputs(inputs@, entries@.take(k as int), *defaults),
        decreases entries@.len() - k,
    {
        let source = &entries[k];
        assert(entries@.take(k + 1).drop_last() =~= entries@.take(k as int));
        if source.monitor.is_none() {
            let ghost before = inputs@;
            let mut id = INPUT_PREFIX.to_owned();
            id.append(source.name.as_str());
            inputs.push(
                SourceInfo {
                    id,
                    name: source.description.clone(),
                    kind: SourceKind::Capture,
                    is_default: same(source.name.as_str(), defaults.default_source.as_str()),
                    captures_output: None,
                },
            );
            assert(inputs@.drop_last() =~= before);
        }
        k += 1;
    }
    assert(entries@.take(k as int) =~= entries@);
    let ghost all_loopbacks = loopbacks@;
    let ghost all_inputs = inputs@;
    let mut sources: Vec<SourceInfo> = Vec::new();
    sources.push(
        SourceInfo {
            id: DESKTOP.to_owned(),
            name: DESKTOP_NAME.to_owned(),
            kind: SourceKind::Desktop,
            is_default: false,
            captures_output: Some(defaults.default_sink.clone()),
        },
    );
    sources.append(&mut loopbacks);
    sources.append(&mut inputs);
    assert(sources@.skip(1) =~= all_loopbacks + all_inputs);
    Ok(DeviceList { sources, outputs })
}

/// Whether `r` is what a source id records: the name of a source of the
/// server, and whether that is the capture of an output.
pub open spec fn resolved(
    r: Result<(String, bool), Message>,
    source: Seq<char>,
    default_sink: Option<String>,
) -> bool {
    if source == DESKTOP@ {
        match default_sink {
            Some(sink) => r matches Ok((name, output)) && output && name@ == sink@
                + MONITOR_SUFFIX@,
            None => r == Err::<(String, bool), Message>(Kind::ServerInfo.plain()),
        }
    } else if text::occurs_at(source, OUTPUT_PREFIX@, 0) {
        r matches Ok((name, output)) && output && source == OUTPUT_PREFIX@ + name@
    } else if text::occurs_at(source, INPUT_PREFIX@, 0) {
        r matches Ok((name, output)) && !output && source == INPUT_PREFIX@ + name@
    } else {
        r matches Err(e) && Kind::UnknownSource.detailed(e, source)
    }
}

/// Finds out what a source id records, `default_sink` being what the server
/// tells of its default sink.
pub fn resolve_source(source: &str, default_sink: &Option<String>) -> (r: Result<
    (String, bool),
    Message,
>)
    ensures
        resolved(r, source@, *default_sink),
{
    if same(source, DESKTOP) {
        match default_sink {
            Some(sink) => {
                let mut name = sink.clone();
                name.append(MONITOR_SUFFIX);
                Ok((name, true))
            },
            None => Err(Message::from(Kind::ServerInfo)),
        }
    } else {
        match strip_prefix(source, OUTPUT_PREFIX) {
            Some(name) => Ok((name, true)),
            None => match strip_prefix(source, INPUT_PREFIX) {
                Some(name) => Ok((name, false)),
                None => Err(Kind::UnknownSource.detail(source)),
            },
        }
    }
}

/// Whether a name can be handed to the server: it holds no zero byte.
pub open spec fn is_device_name(name: Seq<char>) -> bool {
    forall|i: int| 0 <= i < name.len() ==> #[trigger] name[i] != '\0'
}

/// Checks a device name on its way to the server. Names come from the
/// settings file, so a malformed one is an error the panel can show.
pub fn device_name(name: &str) -> (r: Result<(), Message>)
    ensures
        r is Ok == is_device_name(name@),
        r matches Err(e) ==> Kind::InvalidDeviceName.detailed(e, name@),
{
    let n: usize = name.unicode_len();
    let mut i: usize = 0;
    while i < n
        invariant
            i <= n,
            n == name@.len(),
            forall|k: int| 0 <= k < i ==> #[trigger] name@[k] != '\0',
        decreases n - i,
    {
        if name.get_char(i) == '\0' {
            return Err(Kind::InvalidDeviceName.detail(name));
        }
        i += 1;
    }
    Ok(())
}

/// Whether a source records what a sink plays.
pub fn devices_match(source_name: &str, sink: &str) -> (r: bool)
    ensures
        r == (source_name@ == sink@ + MONITOR_SUFFIX@),
{
    let mut monitor = sink.to_owned();
    monitor.append(MONITOR_SUFFIX);
    same(source_name, monitor.as_str())
}

/// Whether a source id records what a sink plays: playing it there would be a
/// feedback loop.
pub open spec fn records(source: Seq<char>, default_sink: Option<String>, sink: Seq<char>) -> bool {
    if source == DESKTOP@ {
        default_sink matches Some(d) && d@ == sink
    } else {
        text::occurs_at(source, OUTPUT_PREFIX@, 0) && source == OUTPUT_PREFIX@ + (sink
            + MONITOR_SUFFIX@)
    }
}

/// Tells whether a source id records what a sink plays.
pub fn is_self_monitor(source: &str, default_sink: &Option<String>, sink: &str) -> (r: bool)
    ensures
        r == records(source@, *default_sink, sink@),
{
    let found = resolve_source(source, default_sink);
    match found {
        Ok((name, output)) => {
            let r = output && devices_match(name.as_str(), sink);
            proof {
                let wanted = sink@ + MONITOR_SUFFIX@;
                if source@ == DESKTOP@ && name@ == wanted {
                    let default = default_sink->0@;
                    assert(default.len() == sink@.len());
                    assert(default =~= name@.take(default.len() as int));
                    assert(sink@ =~= wanted.take(default.len() as int));
                }
                if source@ != DESKTOP@ && output {
                    if source@ == OUTPUT_PREFIX@ + wanted {
                        assert(name@ =~= source@.skip(OUTPUT_PREFIX@.len() as int));
                        assert(wanted =~= source@.skip(OUTPUT_PREFIX@.len() as int));
                    }
                }
            }
            r
        },
        Err(_) => false,
    }
}

/// The default output is kept from playing its own capture, and so is every
/// sink whose monitor is captured, whichever output is the default.
pub proof fn law_a_recorded_sink_is_left_out(sink: String)
    ensures
        records(DESKTOP@, Some(sink), sink@),
        forall|default: Option<String>| #[trigger]
            records(OUTPUT_PREFIX@ + (sink@ + MONITOR_SUFFIX@), default, sink@),
{
    let source = OUTPUT_PREFIX@ + (sink@ + MONITOR_SUFFIX@);
    reveal_strlit("output:");
    reveal_strlit("desktop");
    assert(source.subrange(0, OUTPUT_PREFIX@.len() as int) =~= OUTPUT_PREFIX@);
    assert(source[0] == 'o');
    assert(DESKTOP@[0] == 'd');
}

/// The first frames of a capture.
#[derive(Debug, Clone, Copy, PartialEq, Eq, Structural)]
pub struct CaptureClock {
    pub rate: u32,
    pub bytes_per_frame: usize,
    /// Until when packets are dropped, zero before the first one.
    pub first_ts: u64,
}

/// What to do with what the server has for a capture.
#[derive(Debug, Clone, Copy, PartialEq, Eq, Structural)]
pub enum ReadStep {
    /// Nothing is there.
    Nothing,
    /// Something is there that is not to be handed on.
    Skip,
    /// A packet of that many frames is handed on.
    Deliver { frames: u32 },
}

impl CaptureClock {
    /// When the first sample of a packet of `bytes` bytes was captured.
    pub open spec fn began(self, bytes: int, now: u64) -> int {
        let length = ((bytes / self.bytes_per_frame as int) as u32) as int * 1_000_000_000
            / self.rate as int;
        if now >= length {
            now - length
        } else {
            0
        }
    }

    /// Until when packets are dropped once one has come.
    pub open spec fn opens_at(self, began: int) -> int {
        if self.first_ts == 0 {
            began + STARTUP_TIMEOUT_NS
        } else {
            self.first_ts as int
        }
    }

    /// Takes a packet of `bytes` bytes, `hole` telling that it holds no data,
    /// at the time `now`. The first half second is dropped.
    pub fn read(&mut self, bytes: usize, hole: bool, now: u64) -> (r: ReadStep)
        requires
            old(self).rate > 0,
            old(self).bytes_per_frame > 0,
            now + STARTUP_TIMEOUT_NS <= u64::MAX,
        ensures
            final(self).rate == old(self).rate,
            final(self).bytes_per_frame == old(self).bytes_per_frame,
            bytes == 0 || hole ==> final(self).first_ts == old(self).first_ts,
            bytes > 0 && !hole ==> final(self).first_ts == old(self).opens_at(
                old(self).began(bytes as int, now),
            ),
            r == if bytes == 0 {
                ReadStep::Nothing
            } else if hole {
                ReadStep::Skip
            } else if old(self).began(bytes as int, now) > old(self).opens_at(
                old(self).began(bytes as int, now),
            ) {
                ReadStep::Deliver { frames: (bytes / old(self).bytes_per_frame) as u32 }
            } else {
                ReadStep::Skip
            },
    {
        if bytes == 0 {
            return ReadStep::Nothing;
        }
        if hole {
            return ReadStep::Skip;
        }
        let count: u32 = (bytes / self.bytes_per_frame) as u32;
        let length: u64 = (count as u64) * 1_000_000_000 / (self.rate as u64);
        let timestamp: u64 = if now >= length {
            now - length
        } else {
            0
        };
        if self.first_ts == 0 {
            self.first_ts = timestamp + STARTUP_TIMEOUT_NS;
        }
        if timestamp > self.first_ts {
            ReadStep::Deliver { frames: count }
        } else {
            ReadStep::Skip
        }
    }
}

/// The state of a stream.
#[derive(Debug, Clone, Copy, PartialEq, Eq, Structural)]
pub enum StreamState {
    Unconnected,
    Creating,
    Ready,
    Failed,
    Terminated,
}

/// What a change of the stream's state means for a capture, `format` being
/// the format it records in.
pub fn capture_state_changed(state: StreamState, format: &String) -> (r: Option<CaptureState>)
    ensures
        r == match state {
            StreamState::Ready => Some(CaptureState::Active { format: *format }),
            StreamState::Failed | StreamState::Terminated => Some(
                CaptureState::Failed(Kind::DeviceDisconnected.plain()),
            ),
            _ => None,
        },
{
    match state {
        StreamState::Ready => Some(CaptureState::Active { format: format.clone() }),
        StreamState::Failed => Some(CaptureState::Failed(Message::from(Kind::DeviceDisconnected))),
        StreamState::Terminated => Some(
            CaptureState::Failed(Message::from(Kind::DeviceDisconnected)),
        ),
        _ => None,
    }
}

/// What a monitor reports: a stream whose sink went away fails and never
/// plays again.
pub fn monitor_state(state: StreamState, format: &String) -> (r: MonitorState)
    ensures
        r == if state is Ready || state is Creating {
            MonitorState::Playing { format: *format }
        } else {
            MonitorState::Reconnecting(Kind::DeviceDisconnected.plain())
        },
{
    match state {
        StreamState::Ready => MonitorState::Playing { format: format.clone() },
        StreamState::Creating => MonitorState::Playing { format: format.clone() },
        _ => MonitorState::Reconnecting(Message::from(Kind::DeviceDisconnected)),
    }
}

/// What a capture opens.
#[derive(Debug, PartialEq, Eq)]
pub struct CaptureTarget {
    /// The source of the server.
    pub device: String,
    /// Whether it is the capture of an output.
    pub is_output: bool,
    /// Whether it follows the default output. Any other stream is pinned to
    /// its device.
    pub is_default: bool,
}

/// Finds out what a capture opens.
pub fn capture_target(source: &str, default_sink: &Option<String>) -> (r: Result<
    CaptureTarget,
    Message,
>)
    ensures
        exists|found: Result<(String, bool), Message>|
            #[trigger] resolved(found, source@, *default_sink) && match found {
                Err(e) => r == Err::<CaptureTarget, Message>(e),
                Ok((name, output)) => if is_device_name(name@) {
                    r == Ok::<CaptureTarget, Message>(
                        CaptureTarget {
                            device: name,
                            is_output: output,
                            is_default: source@ == DESKTOP@,
                        },
                    )
                } else {
                    r matches Err(e) && Kind::InvalidDeviceName.detailed(e, name@)
                },
            },
{
    let found = resolve_source(source, default_sink);
    assert(resolved(found, source@, *default_sink));
    match found {
        Ok((device, is_output)) => match device_name(device.as_str()) {
            Ok(_) => {
                let is_default = same(source, DESKTOP);
                Ok(CaptureTarget { device, is_output, is_default })
            },
            Err(e) => Err(e),
        },
        Err(e) => Err(e),
    }
}

/// The name under which a capture shows up at the server.
pub fn stream_name(target: &CaptureTarget) -> (r: &'static str)
    ensures
        r@ == if target.is_output {
            "Desktop Audio"@
        } else {
            "Audio Input"@
        },
{
    if target.is_output {
        "Desktop Audio"
    } else {
        "Audio Input"
    }
}

/// The audio of a stream, from what the server tells of its device and of the
/// format asked for.
pub fn usable_stream(info: Option<StreamInfo>, valid: bool) -> (r: Result<
    (StreamInfo, AudioSpec),
    Message,
>)
    ensures
        r == match info {
            None => Err::<(StreamInfo, AudioSpec), Message>(Kind::SourceInfo.plain()),
            Some(found) => if valid {
                Ok::<(StreamInfo, AudioSpec), Message>((found, stream_spec(found)))
            } else {
                Err::<(StreamInfo, AudioSpec), Message>(Kind::SampleSpec.plain())
            },
        },
{
    match info {
        None => Err(Message::from(Kind::SourceInfo)),
        Some(found) => if valid {
            Ok((found, audio_spec(found)))
        } else {
            Err(Message::from(Kind::SampleSpec))
        },
    }
}

/// What goes on with a stream once it was made, or could not be.
pub fn stream_made(made: bool) -> (r: Result<(), Message>)
    ensures
        r == if made {
            Ok::<(), Message>(())
        } else {
            Err::<(), Message>(Kind::StreamCreate.plain())
        },
{
    if made {
        Ok(())
    } else {
        Err(Message::from(Kind::StreamCreate))
    }
}

/// What goes on with a stream once it is connected, or could not be.
pub fn stream_connected(connected: bool) -> (r: Result<(), Message>)
    ensures
        r == if connected {
            Ok::<(), Message>(())
        } else {
            Err::<(), Message>(Kind::StreamConnect.plain())
        },
{
    if connected {
        Ok(())
    } else {
        Err(Message::from(Kind::StreamConnect))
    }
}

/// What opening a monitor begins with.
#[derive(Debug, Clone, Copy, PartialEq, Eq, Structural)]
pub enum MonitorTarget {
    /// The sink is the one the source records.
    Ignored,
    /// The sink is opened.
    Open,
}

/// Decides whether a sink is opened for a source at all: not the one the
/// source records, and not one whose name makes no sense.
pub fn monitor_target(source: &str, default_sink: &Option<String>, device: &str) -> (r: Result<
    MonitorTarget,
    Message,
>)
    ensures
        if records(source@, *default_sink, device@) {
            r == Ok::<MonitorTarget, Message>(MonitorTarget::Ignored)
        } else if is_device_name(device@) {
            r == Ok::<MonitorTarget, Message>(MonitorTarget::Open)
        } else {
            r matches Err(e) && Kind::InvalidDeviceName.detailed(e, device@)
        },
{
    if is_self_monitor(source, default_sink, device) {
        return Ok(MonitorTarget::Ignored);
    }
    match device_name(device) {
        Ok(_) => Ok(MonitorTarget::Open),
        Err(e) => Err(e),
    }
}

/// The two ends of the converter of a monitor: what the sink takes and what
/// the source is in.
pub fn monitor_formats(server: bool, info: Option<StreamInfo>, valid: bool) -> (r: Result<
    (AudioSpec, AudioSpec),
    Message,
>)
    ensures
        r == if !server {
            Err::<(AudioSpec, AudioSpec), Message>(Kind::ServerInfo.plain())
        } else {
            match info {
                None => Err::<(AudioSpec, AudioSpec), Message>(Kind::SourceInfo.plain()),
                Some(found) => if valid {
                    Ok::<(AudioSpec, AudioSpec), Message>((stream_spec(found), common_spec()))
                } else {
                    Err::<(AudioSpec, AudioSpec), Message>(Kind::SampleSpec.plain())
                },
            }
        },
{
    if !server {
        return Err(Message::from(Kind::ServerInfo));
    }
    match usable_stream(info, valid) {
        Ok((_, to)) => {
            let from = AudioSpec {
                rate: OBS_SAMPLE_RATE,
                speakers: OBS_SPEAKERS,
                format: OBS_FORMAT,
            };
            Ok((to, from))
        },
        Err(e) => Err(e),
    }
}

/// What goes on with a monitor once its converter was made, or could not be.
pub fn resampler_made(made: bool) -> (r: Result<(), Message>)
    ensures
        r == if made {
            Ok::<(), Message>(())
        } else {
            Err::<(), Message>(Kind::Resampler.plain())
        },
{
    if made {
        Ok(())
    } else {
        Err(Message::from(Kind::Resampler))
    }
}

/// The audio a monitor has not handed to the server yet.
pub struct Backlog {
    /// How much the server is asked to keep, in bytes.
    pub tlength: u32,
    pub bytes_per_frame: usize,
    /// Cap on `new_data`, from [`crate::audio::MAX_BACKLOG_USEC`].
    pub max_backlog: usize,
    pub new_data: VecDeque<u8>,
}

/// What to do about a stream before writing to it.
#[derive(Debug, Clone, Copy, PartialEq, Eq, Structural)]
pub enum CorkStep {
    /// Not enough audio is queued to start playing.
    Wait,
    /// Enough audio is queued: the stream starts playing.
    Uncork,
    /// The stream is playing.
    Write,
}

fn pop_bytes(data: &mut VecDeque<u8>, n: usize) -> (out: Vec<u8>)
    requires
        n <= old(data)@.len(),
    ensures
        out@ == old(data)@.take(n as int),
        final(data)@ == old(data)@.skip(n as int),
{
    let mut out: Vec<u8> = Vec::new();
    let mut i: usize = 0;
    assert(data@ =~= old(data)@.skip(0));
    while i < n
        invariant
            i <= n <= old(data)@.len(),
            out@ == old(data)@.take(i as int),
            data@ == old(data)@.skip(i as int),
        decreases n - i,
    {
        if let Some(b) = data.pop_front() {
            out.push(b);
        }
        assert(out@ =~= old(data)@.take(i + 1));
        assert(data@ =~= old(data)@.skip(i + 1));
        i += 1;
    }
    out
}

impl Backlog {
    pub fn new(tlength: u32, bytes_per_frame: usize, max_backlog: usize) -> (b: Self)
        ensures
            b.tlength == tlength,
            b.bytes_per_frame == bytes_per_frame,
            b.max_backlog == max_backlog,
            b.new_data@.len() == 0,
    {
        Backlog { tlength, bytes_per_frame, max_backlog, new_data: VecDeque::new() }
    }

    /// Queues converted audio.
    pub fn extend(&mut self, samples: &[u8])
        ensures
            final(self).new_data@ == old(self).new_data@ + samples@,
            final(self).tlength == old(self).tlength,
            final(self).bytes_per_frame == old(self).bytes_per_frame,
            final(self).max_backlog == old(self).max_backlog,
    {
        let mut i: usize = 0;
        assert(self.new_data@ =~= old(self).new_data@ + samples@.take(0));
        while i < samples.len()
            invariant
                i <= samples@.len(),
                self.new_data@ == old(self).new_data@ + samples@.take(i as int),
                self.tlength == old(self).tlength,
                self.bytes_per_frame == old(self).bytes_per_frame,
                self.max_backlog == old(self).max_backlog,
            decreases samples@.len() - i,
        {
            self.new_data.push_back(samples[i]);
            assert(self.new_data@ =~= old(self).new_data@ + samples@.take(i + 1));
            i += 1;
        }
        assert(samples@.take(i as int) =~= samples@);
    }

    /// How much has to go for the backlog to stay within its cap.
    pub open spec fn overdue(&self) -> int {
        if self.new_data@.len() > self.max_backlog {
            self.new_data@.len() - self.max_backlog
        } else {
            0
        }
    }

    /// The bytes that a dropped frame is counted by.
    pub open spec fn unit(&self) -> int {
        if self.bytes_per_frame == 0 {
            1
        } else {
            self.bytes_per_frame as int
        }
    }

    /// It holds no more than it may.
    pub open spec fn capped(&self) -> bool {
        self.new_data@.len() <= self.max_backlog
    }

    /// The device is not taking what the source produces: the oldest audio
    /// goes, rather than be played further and further behind. Returns the
    /// number of frames that went.
    pub fn trim(&mut self) -> (frames: usize)
        ensures
            final(self).new_data@ == old(self).new_data@.skip(old(self).overdue()),
            final(self).capped(),
            frames == old(self).overdue() / old(self).unit(),
            final(self).tlength == old(self).tlength,
            final(self).bytes_per_frame == old(self).bytes_per_frame,
            final(self).max_backlog == old(self).max_backlog,
    {
        let len: usize = self.new_data.len();
        if len <= self.max_backlog {
            assert(self.new_data@.skip(0) =~= self.new_data@);
            return 0;
        }
        let excess: usize = len - self.max_backlog;
        let _ = pop_bytes(&mut self.new_data, excess);
        let unit: usize = if self.bytes_per_frame == 0 {
            1
        } else {
            self.bytes_per_frame
        };
        excess / unit
    }

    /// Asks for a larger buffer of the server when a large backlog built up:
    /// the size to ask for. It is never shrunk back.
    pub fn grow(&mut self) -> (r: Option<u32>)
        ensures
            r == if old(self).new_data@.len() > old(self).tlength * 2 {
                Some(final(self).tlength)
            } else {
                None
            },
            final(self).tlength == if r is Some {
                (if old(self).new_data@.len() <= old(self).max_backlog {
                    old(self).new_data@.len() as int
                } else {
                    old(self).max_backlog as int
                }) as u32
            } else {
                old(self).tlength
            },
            final(self).new_data == old(self).new_data,
            final(self).bytes_per_frame == old(self).bytes_per_frame,
            final(self).max_backlog == old(self).max_backlog,
    {
        let len: usize = self.new_data.len();
        if (len as u64) > (self.tlength as u64) * 2 {
            let wanted: usize = if len <= self.max_backlog {
                len
            } else {
                self.max_backlog
            };
            self.tlength = wanted as u32;
            Some(self.tlength)
        } else {
            None
        }
    }

    /// Decides whether to write, `corked` telling whether the stream is still
    /// held back: playing starts once enough audio is queued.
    pub fn cork_step(&self, corked: bool) -> (r: CorkStep)
        ensures
            r == if !corked {
                CorkStep::Write
            } else if self.new_data@.len() >= self.tlength {
                CorkStep::Uncork
            } else {
                CorkStep::Wait
            },
    {
        if !corked {
            CorkStep::Write
        } else if self.new_data.len() as u64 >= self.tlength as u64 {
            CorkStep::Uncork
        } else {
            CorkStep::Wait
        }
    }

    /// How much there is to write.
    pub fn len(&self) -> (n: usize)
        ensures
            n == self.new_data@.len(),
    {
        self.new_data.len()
    }

    /// Takes what the server makes room for, oldest first. Where it asks for
    /// more than there is, nothing is taken.
    pub fn take(&mut self, room: usize) -> (r: Option<Vec<u8>>)
        ensures
            match r {
                Some(out) => room <= old(self).new_data@.len() && out@
                    == old(self).new_data@.take(room as int) && final(self).new_data@
                    == old(self).new_data@.skip(room as int),
                None => room > old(self).new_data@.len() && final(self).new_data
                    == old(self).new_data,
            },
            final(self).tlength == old(self).tlength,
            final(self).bytes_per_frame == old(self).bytes_per_frame,
            final(self).max_backlog == old(self).max_backlog,
    {
        if room > self.new_data.len() {
            return None;
        }
        Some(pop_bytes(&mut self.new_data, room))
    }
}

/// What happened while a monitor was writing.
#[derive(Debug, Clone, Copy, PartialEq, Eq, Structural)]
pub enum WriteEvent {
    /// The server's buffer was grown.
    Grown,
    /// Whether the stream is held back.
    Corked(bool),
    /// The stream was started.
    Uncorked,
    /// The server makes room for that many bytes, or for none at all.
    Room(Option<usize>),
    /// The bytes were handed over.
    Written,
}

/// What to do next while a monitor is writing.
#[derive(Debug, PartialEq, Eq)]
pub enum WriteAction {
    /// Grow the server's buffer to that many bytes.
    Grow(u32),
    /// Ask whether the stream is held back.
    AskCorked,
    /// Start the stream.
    Uncork,
    /// Ask for room for that many bytes.
    AskRoom(usize),
    /// Hand the bytes over.
    Write(Vec<u8>),
    /// Give the room back.
    Cancel,
    Done,
}

impl Backlog {
    /// What to do once the stream plays: write as long as there is something.
    pub open spec fn writing(&self) -> WriteAction {
        if self.new_data@.len() == 0 {
            WriteAction::Done
        } else {
            WriteAction::AskRoom(self.new_data@.len() as usize)
        }
    }

    fn keep_writing(&self) -> (r: WriteAction)
        ensures
            r == self.writing(),
    {
        if self.new_data.len() == 0 {
            WriteAction::Done
        } else {
            WriteAction::AskRoom(self.new_data.len())
        }
    }

    /// Whether `dropped` frames, `action` and `after` are what writing begins
    /// with: what is too much is gone, and a large backlog has the server's
    /// buffer grow to hold it.
    pub open spec fn begins(&self, dropped: usize, action: WriteAction, after: &Backlog) -> bool {
        let kept = self.new_data@.skip(self.overdue());
        &&& dropped == self.overdue() / self.unit()
        &&& after.new_data@ == kept
        &&& after.bytes_per_frame == self.bytes_per_frame
        &&& after.max_backlog == self.max_backlog
        &&& if kept.len() > self.tlength * 2 {
            action == WriteAction::Grow(after.tlength) && after.tlength == kept.len() as u32
        } else {
            action is AskCorked && after.tlength == self.tlength
        }
    }

    /// Begins to write: drops what is too much, oldest first, and returns how
    /// many frames that was and what to do first.
    pub fn begin(&mut self) -> (r: (usize, WriteAction))
        ensures
            old(self).begins(r.0, r.1, final(self)),
            final(self).capped(),
    {
        let dropped: usize = self.trim();
        let action = match self.grow() {
            Some(size) => WriteAction::Grow(size),
            None => WriteAction::AskCorked,
        };
        (dropped, action)
    }

    /// Whether `action` and `after` are what an event leads to.
    pub open spec fn writes(&self, event: WriteEvent, action: WriteAction, after: &Backlog) -> bool {
        &&& after.bytes_per_frame == self.bytes_per_frame
        &&& after.max_backlog == self.max_backlog
        &&& match event {
            WriteEvent::Grown => action is AskCorked && *after == *self,
            WriteEvent::Corked(corked) => {
                &&& *after == *self
                &&& action == if !corked {
                    self.writing()
                } else if self.new_data@.len() >= self.tlength {
                    WriteAction::Uncork
                } else {
                    WriteAction::Done
                }
            },
            WriteEvent::Uncorked | WriteEvent::Written => *after == *self && action
                == self.writing(),
            WriteEvent::Room(None) => action is Done && *after == *self,
            WriteEvent::Room(Some(room)) => {
                &&& after.tlength == self.tlength
                &&& if room > self.new_data@.len() {
                    action is Cancel && after.new_data == self.new_data
                } else {
                    &&& action matches WriteAction::Write(out) && out@ == self.new_data@.take(
                        room as int,
                    )
                    &&& after.new_data@ == self.new_data@.skip(room as int)
                }
            },
        }
    }

    /// Writes what is queued, step by step, once it has begun: starts the
    /// stream once enough is queued, then hands over as much as there is room
    /// for.
    pub fn stream_write(&mut self, event: WriteEvent) -> (action: WriteAction)
        ensures
            old(self).writes(event, action, final(self)),
    {
        match event {
            WriteEvent::Grown => WriteAction::AskCorked,
            WriteEvent::Corked(corked) => match self.cork_step(corked) {
                CorkStep::Wait => WriteAction::Done,
                CorkStep::Uncork => WriteAction::Uncork,
                CorkStep::Write => self.keep_writing(),
            },
            WriteEvent::Uncorked => self.keep_writing(),
            WriteEvent::Written => self.keep_writing(),
            WriteEvent::Room(None) => WriteAction::Done,
            WriteEvent::Room(Some(room)) => match self.take(room) {
                Some(out) => WriteAction::Write(out),
                None => WriteAction::Cancel,
            },
        }
    }
}

/// A stream that is held back is not written to before as much audio is
/// queued as the server is asked to keep.
pub proof fn law_playing_waits_for_a_full_buffer(
    before: Backlog,
    action: WriteAction,
    after: Backlog,
)
    requires
        before.writes(WriteEvent::Corked(true), action, &after),
    ensures
        action is Uncork <==> before.new_data@.len() >= before.tlength,
        !(action is AskRoom),
        !(action is Write),
{
}

/// From the moment writing begins until more audio is queued, the backlog
/// never holds more than it may, whatever happens on the way.
pub proof fn law_a_backlog_stays_within_its_cap(
    queued: Backlog,
    dropped: usize,
    first: WriteAction,
    begun: Backlog,
    event: WriteEvent,
    action: WriteAction,
    after: Backlog,
)
    ensures
        queued.begins(dropped, first, &begun) ==> begun.capped() && begun.max_backlog
            == queued.max_backlog,
        begun.capped() && begun.writes(event, action, &after) ==> after.capped()
            && after.max_backlog == begun.max_backlog,
{
}

/// Whatever happens while a monitor writes, no byte is lost and none changes
/// its place: what is handed over, followed by what is left, is what there
/// was.
pub proof fn law_audio_keeps_its_order(
    before: Backlog,
    event: WriteEvent,
    action: WriteAction,
    after: Backlog,
)
    requires
        before.writes(event, action, &after),
    ensures
        match action {
            WriteAction::Write(out) => out@ + after.new_data@ == before.new_data@,
            _ => after.new_data@ == before.new_data@,
        },
{
    if let WriteEvent::Room(Some(room)) = event {
        let all = before.new_data@;
        if room <= all.len() {
            assert(all.take(room as int) + all.skip(room as int) =~= all);
        }
    }
}

/// The bytes of one sample of a format of the server.
pub open spec fn sample_width(format: PulseFormat) -> nat {
    match format {
        PulseFormat::U8 | PulseFormat::ALaw | PulseFormat::ULaw => 1,
        PulseFormat::S16le | PulseFormat::S16be => 2,
        PulseFormat::S24le | PulseFormat::S24be => 3,
        PulseFormat::Invalid => 0,
        _ => 4,
    }
}

/// The audio of a stream is what the stream carries: at its own rate, with its
/// own channels, interleaved, in samples of the same size and kind. What is
/// asked of the server for a device keeps the device's rate, and its channels
/// and format where they are handled.
pub proof fn law_a_stream_keeps_its_rate(
    device: StreamInfo,
    asked: StreamInfo,
    spec: AudioSpec,
    any: StreamInfo,
    any_spec: AudioSpec,
)
    requires
        call_ensures(stream_info, (device,), asked),
        call_ensures(audio_spec, (asked,), spec),
        call_ensures(audio_spec, (any,), any_spec),
    ensures
        any_spec.rate == any.rate,
        1 <= any.channels <= 6 || any.channels == 8 ==> any_spec.speakers.channel_count()
            == any.channels,
        asked.rate == device.rate,
        spec.rate == device.rate,
        spec.speakers.channel_count() == asked.channels,
        asked.channels == if 1 <= device.channels <= 6 || device.channels == 8 {
            device.channels as int
        } else {
            2
        },
        !spec.format.planar(),
        spec.format.sample_bytes() == sample_width(asked.format),
        spec.format is Float <==> asked.format is F32le,
        spec.format is U8 <==> asked.format is U8,
        device.format is U8 || device.format is S16le || device.format is S32le || device.format
            is F32le ==> asked.format == device.format,
        asked.format == device.format || asked.format is F32le,
{
}

/// A capture and a monitor are opened in the format that the server gave for
/// their device, and only where it gave one that is valid; a monitor is fed
/// from the common format.
pub proof fn law_devices_are_opened_in_their_own_format(
    server: bool,
    info: Option<StreamInfo>,
    valid: bool,
    capture: Result<(StreamInfo, AudioSpec), Message>,
    monitor: Result<(AudioSpec, AudioSpec), Message>,
)
    requires
        call_ensures(usable_stream, (info, valid), capture),
        call_ensures(monitor_formats, (server, info, valid), monitor),
    ensures
        capture is Ok <==> info is Some && valid,
        capture matches Ok((found, spec)) ==> {
            &&& Some(found) == info
            &&& spec.rate == found.rate
            &&& 1 <= found.channels <= 6 || found.channels == 8 ==> spec.speakers.channel_count()
                == found.channels
        },
        monitor is Ok <==> server && info is Some && valid,
        monitor matches Ok((to, from)) ==> {
            &&& to.rate == info->0.rate
            &&& 1 <= info->0.channels <= 6 || info->0.channels == 8
                ==> to.speakers.channel_count() == info->0.channels
            &&& from.rate == 48_000
            &&& from.speakers.channel_count() == 2
            &&& from.format is FloatPlanar
        },
{
}

/// A source records one sink at the most, and a monitor is kept from that one
/// alone: it is the sink whose monitor the capture opens. Desktop audio records
/// the default sink and no other, an input records none. Every other sink with
/// a name that makes sense is opened.
pub proof fn law_only_the_recorded_sink_is_kept_out(
    source: &str,
    default: &Option<String>,
    sink: &str,
    records_it: bool,
    target: Result<MonitorTarget, Message>,
    other: &str,
    records_other: bool,
    capture: Result<CaptureTarget, Message>,
)
    requires
        call_ensures(is_self_monitor, (source, default, sink), records_it),
        call_ensures(monitor_target, (source, default, sink), target),
        call_ensures(is_self_monitor, (source, default, other), records_other),
        call_ensures(capture_target, (source, default), capture),
    ensures
        records_it && records_other ==> sink@ == other@,
        source@ == DESKTOP@ ==> (records_it <==> default is Some && default->0@ == sink@),
        text::occurs_at(source@, INPUT_PREFIX@, 0) ==> !records_it,
        source@ == OUTPUT_PREFIX@ + (sink@ + MONITOR_SUFFIX@) ==> records_it,
        target == Ok::<MonitorTarget, Message>(MonitorTarget::Ignored) <==> records_it,
        !records_it && (forall|i: int| 0 <= i < sink@.len() ==> sink@[i] != '\0') ==> target
            == Ok::<MonitorTarget, Message>(MonitorTarget::Open),
        capture matches Ok(c) ==> (records_it <==> c.is_output && c.device@ == sink@
            + MONITOR_SUFFIX@),
{
    reveal_strlit("output:");
    reveal_strlit("input:");
    reveal_strlit("desktop");
    let a = sink@ + MONITOR_SUFFIX@;
    let b = other@ + MONITOR_SUFFIX@;
    let n = OUTPUT_PREFIX@.len() as int;
    assert forall|x: Seq<char>, y: Seq<char>| #[trigger] (OUTPUT_PREFIX@ + x) == #[trigger] (
    OUTPUT_PREFIX@ + y) implies x == y by {
        assert(x =~= (OUTPUT_PREFIX@ + x).skip(n));
        assert(y =~= (OUTPUT_PREFIX@ + y).skip(n));
    }
    assert forall|x: Seq<char>, y: Seq<char>| #[trigger] (x + MONITOR_SUFFIX@) == #[trigger] (y
        + MONITOR_SUFFIX@) implies x == y by {
        let whole = x + MONITOR_SUFFIX@;
        assert(whole.len() == x.len() + MONITOR_SUFFIX@.len());
        assert((y + MONITOR_SUFFIX@).len() == y.len() + MONITOR_SUFFIX@.len());
        assert(x =~= whole.take(x.len() as int));
        assert(y =~= whole.take(x.len() as int));
    }
    if text::occurs_at(source@, INPUT_PREFIX@, 0) {
        assert(source@.subrange(0, 6)[0] == INPUT_PREFIX@[0]);
        assert(source@[0] == 'i');
        assert(DESKTOP@[0] == 'd');
        if text::occurs_at(source@, OUTPUT_PREFIX@, 0) {
            assert(source@.subrange(0, 7)[0] == OUTPUT_PREFIX@[0]);
        }
    }
    if source@ == OUTPUT_PREFIX@ + a {
        assert(source@.subrange(0, n) =~= OUTPUT_PREFIX@);
        assert(source@[0] == 'o');
        assert(DESKTOP@[0] == 'd');
    }
}

/// A source id leads to the device that it names: desktop audio to the monitor
/// of the default sink, which it follows, and the others to the device behind
/// their prefix.
pub proof fn law_a_capture_opens_what_its_id_names(
    source: &str,
    default: &Option<String>,
    name: Seq<char>,
    capture: Result<CaptureTarget, Message>,
)
    requires
        call_ensures(capture_target, (source, default), capture),
        forall|i: int| 0 <= i < name.len() ==> #[trigger] name[i] != '\0',
    ensures
        source@ == DESKTOP@ && default is None ==> (capture matches Err(e) && e.kind is ServerInfo),
        source@ != DESKTOP@ && !text::occurs_at(source@, OUTPUT_PREFIX@, 0) && !text::occurs_at(
            source@,
            INPUT_PREFIX@,
            0,
        ) ==> (capture matches Err(e) && e.kind is UnknownSource && e.detail is Some && e.detail->0@
            == source@),
        capture matches Ok(c) ==> !c.device@.contains('\0'),
        source@ == DESKTOP@ && (default matches Some(d) && d@ + MONITOR_SUFFIX@ == name) ==> (
        capture matches Ok(c) && c.device@ == name && c.is_output && c.is_default),
        source@ == OUTPUT_PREFIX@ + name ==> (capture matches Ok(c) && c.device@ == name
            && c.is_output && !c.is_default),
        source@ == INPUT_PREFIX@ + name ==> (capture matches Ok(c) && c.device@ == name
            && !c.is_output && !c.is_default),
{
    reveal_strlit("output:");
    reveal_strlit("input:");
    reveal_strlit("desktop");
    assert(DESKTOP@[0] == 'd');
    assert forall|d: Seq<char>| source@ == #[trigger] (OUTPUT_PREFIX@ + d) && source@
        == OUTPUT_PREFIX@ + name implies d == name by {
        assert(d =~= source@.skip(7));
        assert(name =~= source@.skip(7));
    }
    assert forall|d: Seq<char>| source@ == #[trigger] (INPUT_PREFIX@ + d) && source@
        == INPUT_PREFIX@ + name implies d == name by {
        assert(d =~= source@.skip(6));
        assert(name =~= source@.skip(6));
    }
    if source@ == OUTPUT_PREFIX@ + name {
        assert(source@[0] == 'o');
        assert(source@.subrange(0, 7) =~= OUTPUT_PREFIX@);
    }
    if source@ == INPUT_PREFIX@ + name {
        assert(source@[0] == 'i');
        assert(source@.subrange(0, 6) =~= INPUT_PREFIX@);
        if text::occurs_at(source@, OUTPUT_PREFIX@, 0) {
            assert(source@.subrange(0, 7)[0] == OUTPUT_PREFIX@[0]);
        }
    }
}

/// A device that comes or goes is told of, one that merely changed is not, and
/// a new default sink is told of once.
pub proof fn law_devices_that_come_and_go_are_told_of(
    facility: Facility,
    change: bool,
    step: WatchStep,
    current: &mut String,
    sink: String,
    event: Option<SystemEvent>,
)
    requires
        call_ensures(watch_event, (facility, change), step),
        call_ensures(watch_server_info, (current, sink), event),
    ensures
        step is Tell <==> (facility is Sink || facility is Source) && !change,
        step matches WatchStep::Tell(e) ==> e is DevicesChanged,
        step is AskServer <==> facility is Server,
        event is Some <==> old(current)@ != sink@,
        event matches Some(e) ==> e is DefaultOutputChanged,
        final(current)@ == sink@,
{
}

/// The first half second of a capture is dropped and the rest is handed on, in
/// whole frames; what holds no data never is.
pub proof fn law_the_first_half_second_is_dropped(
    clock: &mut CaptureClock,
    bytes: usize,
    hole: bool,
    now: u64,
    r: ReadStep,
)
    requires
        old(clock).rate > 0,
        old(clock).bytes_per_frame > 0,
        now + 500_000_000 <= u64::MAX,
        bytes / old(clock).bytes_per_frame <= u32::MAX,
        (bytes / old(clock).bytes_per_frame) * 1_000_000_000 / old(clock).rate as int <= now,
        call_ensures(CaptureClock::read, (clock, bytes, hole, now), r),
    ensures
        ({
            let frames = bytes / old(clock).bytes_per_frame;
            let began = now - frames * 1_000_000_000 / old(clock).rate as int;
            &&& bytes == 0 || hole ==> !(r is Deliver) && *final(clock) == *old(clock)
            &&& bytes > 0 && !hole && old(clock).first_ts == 0 ==> !(r is Deliver) && final(clock).first_ts == began + 500_000_000
            &&& bytes > 0 && !hole && old(clock).first_ts > 0 ==> {
                &&& *final(clock) == *old(clock)
                &&& r is Deliver <==> began > old(clock).first_ts
            }
            &&& r matches ReadStep::Deliver { frames: n } ==> n == frames
            &&& bytes > 0 ==> !(r is Nothing)
        }),
{
}

/// A stream that is ready records or plays in its format, and one that failed
/// is reported as lost.
pub proof fn law_a_failed_stream_is_reported(
    state: StreamState,
    format: &String,
    capture: Option<CaptureState>,
    monitor: MonitorState,
)
    requires
        call_ensures(capture_state_changed, (state, format), capture),
        call_ensures(monitor_state, (state, format), monitor),
    ensures
        state is Ready ==> capture == Some(CaptureState::Active { format: *format }) && monitor == (
        MonitorState::Playing { format: *format }),
        state is Failed || state is Terminated ==> (capture matches Some(CaptureState::Failed(_)))
            && monitor is Reconnecting,
        state is Creating || state is Unconnected ==> capture is None,
        state is Creating ==> monitor is Playing,
        state is Unconnected ==> monitor is Reconnecting,
{
}

/// Every layout has its left and right first and its own low frequency channel
/// where its name has one; mono is a channel of its own.
pub proof fn law_channels_go_where_the_layout_says(speakers: Speakers, map: ChannelMap)
    requires
        call_ensures(channel_map, (speakers,), map),
    ensures
        map.channels == speakers.channel_count(),
        speakers is Mono ==> map.map@[0] is Mono,
        map.channels >= 2 ==> map.map@[0] is FrontLeft && map.map@[1] is FrontRight,
        map.channels >= 4 ==> map.map@[2] is FrontCenter,
        map.channels >= 6 ==> map.map@[4] is RearLeft && map.map@[5] is RearRight,
        map.channels == 8 ==> map.map@[6] is SideLeft && map.map@[7] is SideRight,
        speakers is TwoPointOne ==> map.map@[2] is Lfe,
        speakers is FourPointOne || speakers is FivePointOne || speakers is SevenPointOne
            ==> map.map@[3] is Lfe,
        speakers is FourPointZero ==> map.map@[3] is RearCenter,
        speakers is FourPointOne ==> map.map@[4] is RearCenter,
        speakers is FourPointZero || speakers is Stereo || speakers is Mono ==> forall|i: int|
            0 <= i < map.channels ==> !(#[trigger] map.map@[i] is Lfe),
{
    assert(map.map@[0] == position(speakers, 0));
    assert(map.map@[1] == position(speakers, 1));
    assert(map.map@[2] == position(speakers, 2));
    assert(map.map@[3] == position(speakers, 3));
    assert(map.map@[4] == position(speakers, 4));
    assert(map.map@[5] == position(speakers, 5));
    assert(map.map@[6] == position(speakers, 6));
    assert(map.map@[7] == position(speakers, 7));
}

/// What is queued is written: a stream that plays is asked for room for all of
/// it, and is handed as many of the oldest bytes as it makes room for, until
/// nothing is left. Room for more than there is goes back.
pub proof fn law_what_is_queued_is_written(
    backlog: &mut Backlog,
    event: WriteEvent,
    action: WriteAction,
)
    requires
        call_ensures(Backlog::stream_write, (backlog, event), action),
    ensures
        event is Grown ==> action is AskCorked,
        event == WriteEvent::Corked(false) || event is Uncorked || event is Written ==> action
            == if old(backlog).new_data@.len() == 0 {
            WriteAction::Done
        } else {
            WriteAction::AskRoom(old(backlog).new_data@.len() as usize)
        },
        event == WriteEvent::Corked(true) ==> (action is Uncork <==> old(backlog).new_data@.len()
            >= old(backlog).tlength),
        event == WriteEvent::Corked(true) ==> action is Uncork || action is Done,
        event matches WriteEvent::Room(Some(room)) ==> if room <= old(backlog).new_data@.len() {
            &&& action matches WriteAction::Write(out) && out@.len() == room
            &&& action->Write_0@ + final(backlog).new_data@ == old(backlog).new_data@
        } else {
            action is Cancel && final(backlog).new_data@ == old(backlog).new_data@
        },
        event == WriteEvent::Room(None) ==> action is Done,
        final(backlog).tlength == old(backlog).tlength,
        final(backlog).max_backlog == old(backlog).max_backlog,
        final(backlog).bytes_per_frame == old(backlog).bytes_per_frame,
{
    if let WriteEvent::Room(Some(room)) = event {
        let all = old(backlog).new_data@;
        if room <= all.len() {
            assert(all.take(room as int) + all.skip(room as int) =~= all);
        }
    }
}

/// Beginning to write drops nothing that fits under the cap, and else the
/// oldest bytes alone, down to the cap. The server's buffer only ever grows,
/// and only to hold a backlog of more than twice its size.
pub proof fn law_only_what_is_too_much_is_dropped(
    backlog: &mut Backlog,
    r: (usize, WriteAction),
)
    requires
        call_ensures(Backlog::begin, (backlog,), r),
        old(backlog).max_backlog <= u32::MAX,
    ensures
        ({
            let before = old(backlog).new_data@;
            let after = final(backlog).new_data@;
            &&& before.len() <= old(backlog).max_backlog ==> after == before && r.0 == 0
            &&& before.len() > old(backlog).max_backlog ==> after.len() == old(backlog).max_backlog
                && after == before.skip(before.len() - after.len())
            &&& before.len() > old(backlog).max_backlog && old(backlog).bytes_per_frame > 0 ==> r.0
                == (before.len() - after.len()) / old(backlog).bytes_per_frame as int
            &&& r.1 is Grow <==> after.len() > old(backlog).tlength * 2
            &&& r.1 matches WriteAction::Grow(size) ==> size == after.len() && size == final(backlog).tlength
            &&& !(r.1 is Grow) ==> r.1 is AskCorked
            &&& final(backlog).tlength >= old(backlog).tlength
        }),
{
    let before = old(backlog).new_data@;
    assert(before.skip(0) =~= before);
    let unit = old(backlog).unit();
    assert(0int / unit == 0) by (nonlinear_arith)
        requires
            unit > 0,
    ;
}

/// What goes wrong while a stream or its converter is made stops there, with
/// the step that failed.
pub proof fn law_a_failed_step_is_named(
    ok: bool,
    made: Result<(), Message>,
    connected: Result<(), Message>,
    resampler: Result<(), Message>,
    name: &str,
    checked: Result<(), Message>,
)
    requires
        call_ensures(stream_made, (ok,), made),
        call_ensures(stream_connected, (ok,), connected),
        call_ensures(resampler_made, (ok,), resampler),
        call_ensures(device_name, (name,), checked),
    ensures
        made is Ok <==> ok,
        connected is Ok <==> ok,
        resampler is Ok <==> ok,
        made matches Err(e) ==> e.kind is StreamCreate,
        connected matches Err(e) ==> e.kind is StreamConnect,
        resampler matches Err(e) ==> e.kind is Resampler,
        checked is Ok <==> !name@.contains('\0'),
        checked matches Err(e) ==> e.kind is InvalidDeviceName,
{
    if checked is Err {
        let i = choose|i: int| 0 <= i < name@.len() && name@[i] == '\0';
        assert(name@[i] == '\0');
    }
}

/// Each sink the server lists can be played on, and recorded where it has a
/// monitor; every other source is an input. The default ones are marked, and
/// the desktop stands first.
pub proof fn law_every_device_is_listed(
    server: &Option<ServerDefaults>,
    sinks: &Vec<DeviceEntry>,
    entries: &Vec<DeviceEntry>,
    r: Result<DeviceList, Message>,
    i: int,
    k: int,
)
    requires
        call_ensures(enumerate, (server, sinks, entries), r),
        server is Some,
        0 <= i < sinks@.len(),
        0 <= k < entries@.len(),
    ensures
        r matches Ok(list) && {
            &&& list.outputs@.len() == sinks@.len()
            &&& list.outputs@[i].id@ == sinks@[i].name@
            &&& list.outputs@[i].name@ == sinks@[i].description@
            &&& list.outputs@[i].is_default <==> sinks@[i].name@ == server->0.default_sink@
            &&& list.sources@[0].id@ == DESKTOP@ && list.sources@[0].name@ == "Default output"@
            &&& list.sources@[0].kind is Desktop && !list.sources@[0].is_default
            &&& list.sources@[0].captures_output matches Some(out) && out@
                == server->0.default_sink@
            &&& sinks@[i].monitor matches Some(m) ==> exists|n: int|
                0 <= n < list.sources@.len() && {
                    let s = #[trigger] list.sources@[n];
                    &&& s.id@ == OUTPUT_PREFIX@ + m@ && s.name@ == sinks@[i].description@
                    &&& s.kind is Loopback
                    &&& s.is_default <==> m@ == server->0.default_sink@ + ".monitor"@
                    &&& s.captures_output matches Some(out) && out@ == sinks@[i].name@
                }
            &&& entries@[k].monitor is None ==> exists|n: int|
                0 <= n < list.sources@.len() && {
                    let s = #[trigger] list.sources@[n];
                    &&& s.id@ == INPUT_PREFIX@ + entries@[k].name@
                    &&& s.name@ == entries@[k].description@ && s.kind is Capture
                    &&& s.captures_output is None
                    &&& s.is_default <==> entries@[k].name@ == server->0.default_source@
                }
        },
{
    let defaults = server->0;
    let list = r->Ok_0;
    let (loopbacks, inputs) = choose|loopbacks: Seq<SourceInfo>, inputs: Seq<SourceInfo>|
        {
            &&& list.sources@.len() == 1 + loopbacks.len() + inputs.len()
            &&& is_desktop(list.sources@[0], defaults)
            &&& list.sources@.skip(1) == loopbacks + inputs
            &&& #[trigger] lists_loopbacks(loopbacks, sinks@, defaults)
            &&& #[trigger] lists_inputs(inputs, entries@, defaults)
        };
    assert(list.outputs@[i].id == sinks@[i].name);
    if sinks@[i].monitor is Some {
        lemma_loopback_listed(loopbacks, sinks@, defaults, i);
        let n = choose|n: int|
            0 <= n < loopbacks.len() && is_loopback(#[trigger] loopbacks[n], sinks@[i], defaults);
        assert(list.sources@.skip(1)[n] == loopbacks[n]);
        assert(list.sources@[n + 1] == loopbacks[n]);
    }
    if entries@[k].monitor is None {
        lemma_input_listed(inputs, entries@, defaults, k);
        let n = choose|n: int|
            0 <= n < inputs.len() && is_input(#[trigger] inputs[n], entries@[k], defaults);
        assert(list.sources@.skip(1)[loopbacks.len() + n] == inputs[n]);
        assert(list.sources@[loopbacks.len() + n + 1] == inputs[n]);
    }
}

proof fn lemma_loopback_listed(
    sources: Seq<SourceInfo>,
    sinks: Seq<DeviceEntry>,
    defaults: ServerDefaults,
    i: int,
)
    requires
        lists_loopbacks(sources, sinks, defaults),
        0 <= i < sinks.len(),
        sinks[i].monitor is Some,
    ensures
        exists|n: int|
            0 <= n < sources.len() && is_loopback(#[trigger] sources[n], sinks[i], defaults),
    decreases sinks.len(),
{
    let front = sinks.drop_last();
    if i == sinks.len() - 1 {
        assert(is_loopback(sources[sources.len() - 1], sinks[i], defaults));
    } else {
        let rest = if sinks.last().monitor is Some {
            sources.drop_last()
        } else {
            sources
        };
        lemma_loopback_listed(rest, front, defaults, i);
        let n = choose|n: int|
            0 <= n < rest.len() && is_loopback(#[trigger] rest[n], front[i], defaults);
        assert(sources[n] == rest[n]);
    }
}

proof fn lemma_input_listed(
    sources: Seq<SourceInfo>,
    entries: Seq<DeviceEntry>,
    defaults: ServerDefaults,
    i: int,
)
    requires
        lists_inputs(sources, entries, defaults),
        0 <= i < entries.len(),
        entries[i].monitor is None,
    ensures
        exists|n: int|
            0 <= n < sources.len() && is_input(#[trigger] sources[n], entries[i], defaults),
    decreases entries.len(),
{
    let front = entries.drop_last();
    if i == entries.len() - 1 {
        assert(is_input(sources[sources.len() - 1], entries[i], defaults));
    } else {
        let rest = if entries.last().monitor is None {
            sources.drop_last()
        } else {
            sources
        };
        lemma_input_listed(rest, front, defaults, i);
        let n = choose|n: int|
            0 <= n < rest.len() && is_input(#[trigger] rest[n], front[i], defaults);
        assert(sources[n] == rest[n]);
    }
}

/// The formats that are handled are those in which the server stores samples
/// as this machine's resampler takes them; no two are taken for one.
pub proof fn law_handled_formats_are_told_apart(
    a: PulseFormat,
    b: PulseFormat,
    x: Option<SampleFormat>,
    y: Option<SampleFormat>,
)
    requires
        call_ensures(obs_format, (a,), x),
        call_ensures(obs_format, (b,), y),
    ensures
        a is U8 <==> x == Some(SampleFormat::U8),
        a is S16le <==> x == Some(SampleFormat::S16),
        a is S32le <==> x == Some(SampleFormat::S32),
        a is F32le <==> x == Some(SampleFormat::Float),
        x is Some && x == y ==> a == b,
{
}

/// A source is the monitor of the sink that it is named after, and of no other;
/// a capture goes by another name where it records what is played.
pub proof fn law_a_monitor_is_named_after_its_sink(
    name: &str,
    sink: &str,
    r: bool,
    other: &str,
    s: bool,
    target: &CaptureTarget,
    shown: &'static str,
)
    requires
        call_ensures(devices_match, (name, sink), r),
        call_ensures(devices_match, (name, other), s),
        call_ensures(stream_name, (target,), shown),
    ensures
        r <==> name@ == sink@ + ".monitor"@,
        r && s ==> sink@ == other@,
        target.is_output ==> shown@ == "Desktop Audio"@,
        !target.is_output ==> shown@ == "Audio Input"@,
{
    if r && s {
        let n = sink@.len() as int;
        assert((sink@ + MONITOR_SUFFIX@).len() == (other@ + MONITOR_SUFFIX@).len());
        assert(sink@ =~= name@.take(n));
        assert(other@ =~= name@.take(n));
    }
}

/// Audio leaves a backlog in the order in which it came: what is queued stands
/// behind what was, what is taken is the oldest, and where more is asked for
/// than there is nothing is taken.
pub proof fn law_a_backlog_keeps_its_order(
    backlog: &mut Backlog,
    samples: &[u8],
    taking: &mut Backlog,
    room: usize,
    r: Option<Vec<u8>>,
    after: &Backlog,
    n: usize,
)
    requires
        call_ensures(Backlog::extend, (backlog, samples), ()),
        *old(taking) == *final(backlog),
        call_ensures(Backlog::take, (taking, room), r),
        *after == *final(taking),
        call_ensures(Backlog::len, (after,), n),
    ensures
        ({
            let all = old(backlog).new_data@ + samples@;
            &&& r is Some <==> room <= all.len()
            &&& r matches Some(out) ==> out@.len() == room && out@ + final(taking).new_data@ == all
                && n == all.len() - room
            &&& r is None ==> final(taking).new_data@ == all && n == all.len()
        }),
        final(taking).tlength == old(backlog).tlength,
        final(taking).max_backlog == old(backlog).max_backlog,
        final(taking).bytes_per_frame == old(backlog).bytes_per_frame,
{
    let all = old(backlog).new_data@ + samples@;
    if room <= all.len() {
        assert(all.take(room as int) + all.skip(room as int) =~= all);
    }
}

/// Trimming keeps the newest audio, as much as the cap allows, and tells how
/// many frames went; what is below the cap stays.
pub proof fn law_trimming_keeps_the_newest(backlog: &mut Backlog, frames: usize)
    requires
        call_ensures(Backlog::trim, (backlog,), frames),
    ensures
        ({
            let before = old(backlog).new_data@;
            let after = final(backlog).new_data@;
            &&& before.len() <= old(backlog).max_backlog ==> after == before && frames == 0
            &&& before.len() > old(backlog).max_backlog ==> after.len() == old(backlog).max_backlog
                && after == before.skip(before.len() - after.len())
            &&& old(backlog).bytes_per_frame > 0 ==> frames == (before.len() - after.len())
                / old(backlog).bytes_per_frame as int
            &&& old(backlog).bytes_per_frame == 0 ==> frames == before.len() - after.len()
        }),
        final(backlog).tlength == old(backlog).tlength,
        final(backlog).max_backlog == old(backlog).max_backlog,
{
    let before = old(backlog).new_data@;
    assert(before.skip(0) =~= before);
    let unit = old(backlog).unit();
    assert(0int / unit == 0) by (nonlinear_arith)
        requires
            unit > 0,
    ;
}

/// The server's buffer grows where more than twice as much waits, to hold what
/// waits within the cap; it is never made smaller, and no audio is touched.
pub proof fn law_the_buffer_only_grows(backlog: &mut Backlog, r: Option<u32>)
    requires
        call_ensures(Backlog::grow, (backlog,), r),
        old(backlog).max_backlog <= u32::MAX,
        old(backlog).new_data@.len() <= old(backlog).max_backlog,
    ensures
        r is Some <==> old(backlog).new_data@.len() > old(backlog).tlength * 2,
        r matches Some(size) ==> size == old(backlog).new_data@.len() && size == final(backlog).tlength,
        final(backlog).tlength >= old(backlog).tlength,
        final(backlog).new_data@ == old(backlog).new_data@,
{
}

/// A stream that is held back starts once as much is queued as the server is to
/// keep; one that plays is written to.
pub proof fn law_a_stream_starts_once_enough_is_queued(
    backlog: &Backlog,
    corked: bool,
    r: CorkStep,
    tlength: u32,
    bytes_per_frame: usize,
    cap: usize,
    fresh: Backlog,
)
    requires
        call_ensures(Backlog::cork_step, (backlog, corked), r),
        call_ensures(Backlog::new, (tlength, bytes_per_frame, cap), fresh),
    ensures
        r is Write <==> !corked,
        r is Uncork <==> corked && backlog.new_data@.len() >= backlog.tlength,
        r is Wait <==> corked && backlog.new_data@.len() < backlog.tlength,
        fresh.new_data@.len() == 0 && fresh.tlength == tlength && fresh.max_backlog == cap,
        fresh.bytes_per_frame == bytes_per_frame,
{
}

/// A packet that lasts longer than the clock has run began when the clock did:
/// nothing is handed on of it, and what follows waits for half a second.
pub proof fn law_a_packet_begins_with_the_clock(
    clock: &mut CaptureClock,
    bytes: usize,
    now: u64,
    r: ReadStep,
)
    requires
        old(clock).rate > 0,
        old(clock).bytes_per_frame > 0,
        now + 500_000_000 <= u64::MAX,
        bytes > 0,
        bytes / old(clock).bytes_per_frame <= u32::MAX,
        (bytes / old(clock).bytes_per_frame) * 1_000_000_000 / old(clock).rate as int > now,
        call_ensures(CaptureClock::read, (clock, bytes, false, now), r),
    ensures
        r is Skip,
        old(clock).first_ts == 0 ==> final(clock).first_ts == 500_000_000,
        old(clock).first_ts != 0 ==> final(clock).first_ts == old(clock).first_ts,
{
}

} // verus!
