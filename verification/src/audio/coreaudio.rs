//! macOS backend: what is captured and monitored, and how.
//!
//! - Desktop audio: a screen capture of the main display, stereo, without
//!   this process's own audio, so monitoring can never feed back into it.
//! - Input devices: an audio unit that is opened again when its device comes
//!   back. Loopback drivers such as BlackHole are listed as output captures.
//! - Monitoring: an audio queue in the common format, three 30 ms buffers and
//!   a 90 ms prefill, paused and prefilled again whenever it runs dry. What
//!   the device does not take is cut back, oldest first.

use crate::audio::format::{
    common_spec, AudioSpec, SampleFormat, Speakers, MAX_AUDIO_CHANNELS, OBS_FORMAT,
    OBS_SAMPLE_RATE, OBS_SPEAKERS,
};
use crate::audio::message::{Kind, Message};
use crate::audio::{
    describe, description, CaptureState, DeviceList, MonitorState, OutputInfo, SourceInfo,
    SourceKind, DESKTOP, DESKTOP_NAME, EXACT_RATES, MAX_BACKLOG_USEC,
};
use crate::text;
use crate::text::{contains, same, signed, signed_text, strip_prefix};
use std::collections::VecDeque;
use vstd::prelude::*;

verus! {

pub const OUTPUT_PREFIX: &'static str = "output:";

pub const INPUT_PREFIX: &'static str = "input:";

/// The code of a call that went well.
pub const NO_ERR: i32 = 0;

/// The main element of an audio object.
pub const ELEMENT_MAIN: u32 = 0;

/// Samples are floating point numbers.
pub const FLAG_FLOAT: u32 = 1;

/// Samples are signed integers.
pub const FLAG_SIGNED_INTEGER: u32 = 4;

/// The bits of a sample fill its bytes.
pub const FLAG_PACKED: u32 = 8;

/// Each channel is stored on its own.
pub const FLAG_NON_INTERLEAVED: u32 = 32;

/// The most channels asked of an input.
pub const MAX_INPUT_CHANNELS: u32 = 64;

/// The buffers of an audio queue.
pub const QUEUE_BUFFERS: usize = 3;

/// How often the reconnect thread looks whether it has to leave, and how many
/// times before it tries the device again.
pub const RECONNECT_POLL_MS: u64 = 100;

pub const RECONNECT_POLLS: u32 = 20;

/// Four characters as one number, the first in the highest byte.
pub fn fourcc(s: &[u8; 4]) -> (r: u32)
    ensures
        r == s[0] * 0x100_0000 + s[1] * 0x1_0000 + s[2] * 0x100 + s[3],
{
    let a: u32 = s[0] as u32;
    let b: u32 = s[1] as u32;
    let c: u32 = s[2] as u32;
    let d: u32 = s[3] as u32;
    a * 0x100_0000 + b * 0x1_0000 + c * 0x100 + d
}

/// Where a property of an audio object is found.
#[derive(Debug, Clone, Copy, PartialEq, Eq, Structural)]
pub struct PropertyAddress {
    pub selector: u32,
    pub scope: u32,
    pub element: u32,
}

pub fn address(selector: u32, scope: u32) -> (r: PropertyAddress)
    ensures
        r == (PropertyAddress { selector, scope, element: ELEMENT_MAIN }),
{
    PropertyAddress { selector, scope, element: ELEMENT_MAIN }
}

/// Whether a call went well.
pub fn ca_success(stat: i32) -> (r: bool)
    ensures
        r == (stat == NO_ERR),
{
    stat == NO_ERR
}

/// Whether a flag, a power of two, is set.
pub open spec fn has_flag(flags: u32, flag: u32) -> bool {
    flags / flag % 2 == 1
}

/// The sample format that the flags of a stream stand for, if it is one that
/// is handled: floats, unsigned bytes, and signed words of two or four bytes.
pub open spec fn ca_format(flags: u32, bits: u32) -> Option<SampleFormat> {
    let planar = has_flag(flags, FLAG_NON_INTERLEAVED);
    if has_flag(flags, FLAG_FLOAT) {
        Some(if planar {
            SampleFormat::FloatPlanar
        } else {
            SampleFormat::Float
        })
    } else if !has_flag(flags, FLAG_SIGNED_INTEGER) {
        if bits == 8 {
            Some(if planar {
                SampleFormat::U8Planar
            } else {
                SampleFormat::U8
            })
        } else {
            None
        }
    } else if bits == 16 {
        Some(if planar {
            SampleFormat::S16Planar
        } else {
            SampleFormat::S16
        })
    } else if bits == 32 {
        Some(if planar {
            SampleFormat::S32Planar
        } else {
            SampleFormat::S32
        })
    } else {
        None
    }
}

pub fn convert_ca_format(flags: u32, bits: u32) -> (r: Option<SampleFormat>)
    ensures
        r == ca_format(flags, bits),
{
    let planar = flags / FLAG_NON_INTERLEAVED % 2 == 1;
    if flags / FLAG_FLOAT % 2 == 1 {
        return Some(
            if planar {
                SampleFormat::FloatPlanar
            } else {
                SampleFormat::Float
            },
        );
    }
    let signed_integer = flags / FLAG_SIGNED_INTEGER % 2 == 1;
    if !signed_integer && bits == 8 {
        return Some(
            if planar {
                SampleFormat::U8Planar
            } else {
                SampleFormat::U8
            },
        );
    }
    if !signed_integer {
        return None;
    }
    match bits {
        16 => Some(
            if planar {
                SampleFormat::S16Planar
            } else {
                SampleFormat::S16
            },
        ),
        32 => Some(
            if planar {
                SampleFormat::S32Planar
            } else {
                SampleFormat::S32
            },
        ),
        _ => None,
    }
}

/// Whatever the flags, a format that is taken is stored as they say: planar
/// where channels are not interleaved, and with the bits they give unless it
/// is floating point.
pub proof fn law_formats_keep_their_layout(flags: u32, bits: u32)
    ensures
        ca_format(flags, bits) matches Some(format) ==> {
            &&& format.planar() == has_flag(flags, FLAG_NON_INTERLEAVED)
            &&& has_flag(flags, FLAG_FLOAT) || format.sample_bytes() * 8 == bits
        },
{
}

/// What `str::to_lowercase` makes of a text.
pub uninterp spec fn lowercase(s: Seq<char>) -> Seq<char>;

/// Calls `str::to_lowercase`: the text in small letters, as Unicode has them.
/// The letters are a function of the text alone; which they are is not
/// stated.
#[verifier::external_body]
fn to_lowercase(s: &str) -> (r: String)
    ensures
        r@ == lowercase(s@),
{
    s.to_lowercase()
}

/// Whether a name in small letters is that of a loopback driver.
pub open spec fn is_loopback_driver(lowered: Seq<char>) -> bool {
    ||| text::occurs(lowered, "soundflower"@)
    ||| text::occurs(lowered, "wavtap"@)
    ||| text::occurs(lowered, "soundsiphon"@)
    ||| text::occurs(lowered, "ishowu"@)
    ||| text::occurs(lowered, "blackhole"@)
    ||| text::occurs(lowered, "loopback"@)
    ||| text::occurs(lowered, "groundcontrol"@)
    ||| text::occurs(lowered, "vbcable"@)
}

/// Tells whether a name in small letters is that of a loopback driver.
pub fn names_loopback_driver(lowered: &str) -> (r: bool)
    ensures
        r == is_loopback_driver(lowered@),
{
    contains(lowered, "soundflower") || contains(lowered, "wavtap") || contains(
        lowered,
        "soundsiphon",
    ) || contains(lowered, "ishowu") || contains(lowered, "blackhole") || contains(
        lowered,
        "loopback",
    ) || contains(lowered, "groundcontrol") || contains(lowered, "vbcable")
}

/// Whether a device is an input of its own: loopback drivers are shown as
/// output captures.
pub fn device_is_input(name: &str) -> (r: bool)
    ensures
        r == !is_loopback_driver(lowercase(name@)),
{
    let lowered = to_lowercase(name);
    !names_loopback_driver(lowered.as_str())
}

/// What the system tells of one device.
#[derive(Debug, PartialEq, Eq)]
pub struct DeviceFacts {
    pub id: u32,
    /// A device without a lasting id is left out.
    pub uid: Option<String>,
    pub name: String,
    pub has_outputs: bool,
    pub has_inputs: bool,
}

/// Whether `s` is the source of a device.
pub open spec fn is_source(s: SourceInfo, d: DeviceFacts, default_in: Option<u32>) -> bool {
    let uid = d.uid->0;
    if is_loopback_driver(lowercase(d.name@)) {
        &&& s.id@ == OUTPUT_PREFIX@ + uid@
        &&& s.name == d.name
        &&& s.kind is Loopback
        &&& !s.is_default
        &&& s.captures_output == Some(uid)
    } else {
        &&& s.id@ == INPUT_PREFIX@ + uid@
        &&& s.name == d.name
        &&& s.kind is Capture
        &&& s.is_default == (default_in == Some(d.id))
        &&& s.captures_output is None
    }
}

/// Whether `o` is the output of a device.
pub open spec fn is_output(o: OutputInfo, d: DeviceFacts, default_out: Option<u32>) -> bool {
    &&& o.id == d.uid->0
    &&& o.name == d.name
    &&& o.is_default == (default_out == Some(d.id))
}

/// Whether `sources` lists the devices with inputs, in order.
pub open spec fn lists_sources(
    sources: Seq<SourceInfo>,
    devices: Seq<DeviceFacts>,
    default_in: Option<u32>,
) -> bool
    decreases devices.len(),
{
    if devices.len() == 0 {
        sources.len() == 0
    } else if devices.last().uid is Some && devices.last().has_inputs {
        &&& sources.len() > 0
        &&& is_source(sources.last(), devices.last(), default_in)
        &&& lists_sources(sources.drop_last(), devices.drop_last(), default_in)
    } else {
        lists_sources(sources, devices.drop_last(), default_in)
    }
}

/// Whether `outputs` lists the devices with outputs, in order.
pub open spec fn lists_outputs(
    outputs: Seq<OutputInfo>,
    devices: Seq<DeviceFacts>,
    default_out: Option<u32>,
) -> bool
    decreases devices.len(),
{
    if devices.len() == 0 {
        outputs.len() == 0
    } else if devices.last().uid is Some && devices.last().has_outputs {
        &&& outputs.len() > 0
        &&& is_output(outputs.last(), devices.last(), default_out)
        &&& lists_outputs(outputs.drop_last(), devices.drop_last(), default_out)
    } else {
        lists_outputs(outputs, devices.drop_last(), default_out)
    }
}

/// Whether `s` is the entry of desktop audio, which records no output that
/// could not be played on: this process is left out of it.
pub open spec fn is_desktop(s: SourceInfo) -> bool {
    &&& s.id@ == DESKTOP@
    &&& s.name@ == DESKTOP_NAME@
    &&& s.kind is Desktop
    &&& !s.is_default
    &&& s.captures_output is None
}

/// The device list made of what the system tells: desktop audio, then each
/// device with inputs; and each device with outputs.
pub fn enumerate(
    devices: &Vec<DeviceFacts>,
    default_out: Option<u32>,
    default_in: Option<u32>,
) -> (list: DeviceList)
    ensures
        list.sources@.len() > 0,
        is_desktop(list.sources@[0]),
        lists_sources(list.sources@.skip(1), devices@, default_in),
        lists_outputs(list.outputs@, devices@, default_out),
{
    let mut inputs: Vec<SourceInfo> = Vec::new();
    let mut outputs: Vec<OutputInfo> = Vec::new();
    let mut i: usize = 0;
    while i < devices.len()
        invariant
            i <= devices@.len(),
            lists_sources(inputs@, devices@.take(i as int), default_in),
            lists_outputs(outputs@, devices@.take(i as int), default_out),
        decreases devices@.len() - i,
    {
        let d = &devices[i];
        assert(devices@.take(i + 1).drop_last() =~= devices@.take(i as int));
        let ghost before = (inputs@, outputs@);
        if let Some(uid) = &d.uid {
            if d.has_outputs {
                let default = match default_out {
                    Some(id) => id == d.id,
                    None => false,
                };
                outputs.push(
                    OutputInfo { id: uid.clone(), name: d.name.clone(), is_default: default },
                );
                assert(outputs@.drop_last() =~= before.1);
            }
            if d.has_inputs {
                if device_is_input(d.name.as_str()) {
                    let mut id = INPUT_PREFIX.to_owned();
                    id.append(uid.as_str());
                    let default = match default_in {
                        Some(id) => id == d.id,
                        None => false,
                    };
                    inputs.push(
                        SourceInfo {
                            id,
                            name: d.name.clone(),
                            kind: SourceKind::Capture,
                            is_default: default,
                            captures_output: None,
                        },
                    );
                } else {
                    let mut id = OUTPUT_PREFIX.to_owned();
                    id.append(uid.as_str());
                    inputs.push(
                        SourceInfo {
                            id,
                            name: d.name.clone(),
                            kind: SourceKind::Loopback,
                            is_default: false,
                            captures_output: Some(uid.clone()),
                        },
                    );
                }
                assert(inputs@.drop_last() =~= before.0);
            }
        }
        i += 1;
    }
    assert(devices@.take(i as int) =~= devices@);
    let ghost all = inputs@;
    let mut sources: Vec<SourceInfo> = Vec::new();
    sources.push(
        SourceInfo {
            id: DESKTOP.to_owned(),
            name: DESKTOP_NAME.to_owned(),
            kind: SourceKind::Desktop,
            is_default: false,
            captures_output: None,
        },
    );
    sources.append(&mut inputs);
    assert(sources@.skip(1) =~= all);
    DeviceList { sources, outputs }
}

/// How the samples of a screen capture are laid out in one buffer: a run for
/// each channel, one after the other.
#[derive(Debug, Clone, Copy, PartialEq, Eq, Structural)]
pub struct StreamLayout {
    /// The channels that are handed on.
    pub channels: usize,
    /// The bytes of one channel.
    pub plane_len: usize,
    pub frames: u32,
    pub speakers: Speakers,
}

/// Finds the channels in a buffer of `length` bytes. None without a channel.
pub fn stream_layout(channels_per_frame: u32, bytes_per_frame: u32, length: usize) -> (r: Option<
    StreamLayout,
>)
    ensures
        r == if channels_per_frame < 1 {
            None
        } else {
            Some(
                StreamLayout {
                    channels: if channels_per_frame <= MAX_AUDIO_CHANNELS {
                        channels_per_frame as usize
                    } else {
                        MAX_AUDIO_CHANNELS
                    },
                    plane_len: (length / channels_per_frame as usize) as usize,
                    frames: (length / if bytes_per_frame == 0 {
                        1usize
                    } else {
                        bytes_per_frame as usize
                    } / channels_per_frame as usize) as u32,
                    speakers: Speakers::of_count(channels_per_frame as int),
                },
            )
        },
        r matches Some(l) ==> l.channels * l.plane_len <= length,
{
    if channels_per_frame < 1 {
        return None;
    }
    let n: usize = channels_per_frame as usize;
    let channels: usize = if n <= MAX_AUDIO_CHANNELS {
        n
    } else {
        MAX_AUDIO_CHANNELS
    };
    let plane_len: usize = length / n;
    let unit: usize = if bytes_per_frame == 0 {
        1
    } else {
        bytes_per_frame as usize
    };
    assert(channels * plane_len <= length) by (nonlinear_arith)
        requires
            channels <= n,
            n > 0,
            plane_len == length / n,
    ;
    Some(
        StreamLayout {
            channels,
            plane_len,
            frames: (length / unit / n) as u32,
            speakers: Speakers::from_channels(n),
        },
    )
}

/// What a screen capture reports once its stream has stopped.
pub fn stream_stopped(code: i64) -> (r: CaptureState)
    ensures
        r matches CaptureState::Failed(m) && Kind::StreamStopped.detailed(m, signed(code as int)),
{
    let digits = signed_text(code);
    CaptureState::Failed(Kind::StreamStopped.detail(digits.as_str()))
}

/// How a screen capture is set up: with sound, in stereo, and without what
/// this process plays.
#[derive(Debug, Clone, Copy, PartialEq, Eq, Structural)]
pub struct StreamConfig {
    pub queue_depth: u32,
    pub captures_audio: bool,
    pub excludes_current_process_audio: bool,
    pub shows_cursor: bool,
    pub channels: u32,
}

pub fn stream_config() -> (r: StreamConfig)
    ensures
        r == (StreamConfig {
            queue_depth: 8,
            captures_audio: true,
            excludes_current_process_audio: true,
            shows_cursor: false,
            channels: 2,
        }),
{
    StreamConfig {
        queue_depth: 8,
        captures_audio: true,
        excludes_current_process_audio: true,
        shows_cursor: false,
        channels: 2,
    }
}

/// The place of the main display among those that can be shared.
pub fn main_display(displays: &Vec<u32>, main: u32) -> (r: Option<usize>)
    ensures
        match r {
            Some(i) => i < displays@.len() && displays@[i as int] == main && forall|k: int|
                0 <= k < i ==> displays@[k] != main,
            None => !displays@.contains(main),
        },
{
    let mut i: usize = 0;
    while i < displays.len()
        invariant
            i <= displays@.len(),
            forall|k: int| 0 <= k < i ==> displays@[k] != main,
        decreases displays@.len() - i,
    {
        if displays[i] == main {
            return Some(i);
        }
        i += 1;
    }
    None
}

/// A call made while a screen capture starts, in order.
#[derive(Debug, Clone, Copy, PartialEq, Eq, Structural)]
pub enum DesktopCall {
    /// Ask what can be shared.
    Content,
    /// Find the main display among it.
    Display,
    /// Frames are dropped, but a stream without them complains.
    VideoOutput,
    AudioOutput,
    Start,
}

/// What goes wrong in such a call.
#[derive(Debug, Clone, Copy, PartialEq, Eq, Structural)]
pub enum DesktopFailure {
    /// No answer came about what can be shared.
    Timeout,
    /// Nothing may be shared.
    Denied,
    NoDisplay,
    VideoOutput(i64),
    AudioOutput(i64),
    Start,
}

/// What comes next while a screen capture starts.
#[derive(Debug, PartialEq, Eq)]
pub enum DesktopStep {
    Call(DesktopCall),
    /// The capture runs.
    Running(CaptureState),
    Failed(Message),
}

/// Whether a message is that of a failure.
pub open spec fn tells_of(m: Message, failure: DesktopFailure) -> bool {
    match failure {
        DesktopFailure::Timeout => m == Kind::ScreenTimeout.plain(),
        DesktopFailure::Denied => m == Kind::ScreenPermission.plain(),
        DesktopFailure::NoDisplay => m == Kind::MainDisplay.plain(),
        DesktopFailure::VideoOutput(code) => Kind::VideoStreamOutput.detailed(
            m,
            signed(code as int),
        ),
        DesktopFailure::AudioOutput(code) => Kind::AudioStreamOutput.detailed(
            m,
            signed(code as int),
        ),
        DesktopFailure::Start => m == Kind::CaptureStart.plain(),
    }
}

impl DesktopCall {
    /// The call after this one.
    pub open spec fn next(self) -> Option<DesktopCall> {
        match self {
            DesktopCall::Content => Some(DesktopCall::Display),
            DesktopCall::Display => Some(DesktopCall::VideoOutput),
            DesktopCall::VideoOutput => Some(DesktopCall::AudioOutput),
            DesktopCall::AudioOutput => Some(DesktopCall::Start),
            DesktopCall::Start => None,
        }
    }
}

/// Takes the outcome of a call and tells what comes next; the first call is
/// [`DesktopCall::Content`].
pub fn start_desktop(call: DesktopCall, failure: Option<DesktopFailure>) -> (r: DesktopStep)
    ensures
        match failure {
            Some(f) => r matches DesktopStep::Failed(m) && tells_of(m, f),
            None => match call.next() {
                Some(next) => r == DesktopStep::Call(next),
                None => r matches DesktopStep::Running(CaptureState::Active { format }) && format@
                    == description(OBS_SAMPLE_RATE as nat, 2),
            },
        },
{
    match failure {
        Some(DesktopFailure::Timeout) => DesktopStep::Failed(Message::from(Kind::ScreenTimeout)),
        Some(DesktopFailure::Denied) => DesktopStep::Failed(Message::from(Kind::ScreenPermission)),
        Some(DesktopFailure::NoDisplay) => DesktopStep::Failed(Message::from(Kind::MainDisplay)),
        Some(DesktopFailure::VideoOutput(code)) => DesktopStep::Failed(
            Kind::VideoStreamOutput.detail(signed_text(code).as_str()),
        ),
        Some(DesktopFailure::AudioOutput(code)) => DesktopStep::Failed(
            Kind::AudioStreamOutput.detail(signed_text(code).as_str()),
        ),
        Some(DesktopFailure::Start) => DesktopStep::Failed(Message::from(Kind::CaptureStart)),
        None => match call {
            DesktopCall::Content => DesktopStep::Call(DesktopCall::Display),
            DesktopCall::Display => DesktopStep::Call(DesktopCall::VideoOutput),
            DesktopCall::VideoOutput => DesktopStep::Call(DesktopCall::AudioOutput),
            DesktopCall::AudioOutput => DesktopStep::Call(DesktopCall::Start),
            DesktopCall::Start => DesktopStep::Running(
                CaptureState::Active { format: describe(OBS_SAMPLE_RATE, 2) },
            ),
        },
    }
}

/// What a capture opens.
#[derive(Debug, PartialEq, Eq)]
pub enum CaptureTarget {
    Desktop,
    /// The device of that lasting id.
    Input(String),
}

/// Finds out what a source id opens.
pub fn start_capture(source: &str) -> (r: Result<CaptureTarget, Message>)
    ensures
        if source@ == DESKTOP@ {
            r == Ok::<CaptureTarget, Message>(CaptureTarget::Desktop)
        } else if text::occurs_at(source@, INPUT_PREFIX@, 0) {
            r matches Ok(CaptureTarget::Input(uid)) && source@ == INPUT_PREFIX@ + uid@
        } else if text::occurs_at(source@, OUTPUT_PREFIX@, 0) {
            r matches Ok(CaptureTarget::Input(uid)) && source@ == OUTPUT_PREFIX@ + uid@
        } else {
            r matches Err(e) && Kind::UnknownSource.detailed(e, source@)
        },
{
    if same(source, DESKTOP) {
        Ok(CaptureTarget::Desktop)
    } else {
        match strip_prefix(source, INPUT_PREFIX) {
            Some(uid) => Ok(CaptureTarget::Input(uid)),
            None => match strip_prefix(source, OUTPUT_PREFIX) {
                Some(uid) => Ok(CaptureTarget::Input(uid)),
                None => Err(Kind::UnknownSource.detail(source)),
            },
        }
    }
}

/// A call made while an input device is opened, in order.
#[derive(Debug, Clone, Copy, PartialEq, Eq, Structural)]
pub enum UnitCall {
    FindDevice,
    FindComponent,
    NewInstance,
    EnableInput,
    DisableOutput,
    SetDevice,
    GetInputFormat,
    GetOutputFormat,
    SetOutputFormat,
    /// The format has to be one that is handled: see
    /// [`CoreAudioData::init_format`].
    CheckFormat,
    GetFrameSize,
    GetStreamFormat,
    GetSampleRate,
    WatchAlive,
    WatchFormats,
    SetCallback,
    Initialize,
    Start,
}

impl UnitCall {
    /// The call's place.
    pub open spec fn place(self) -> int {
        match self {
            UnitCall::FindDevice => 0,
            UnitCall::FindComponent => 1,
            UnitCall::NewInstance => 2,
            UnitCall::EnableInput => 3,
            UnitCall::DisableOutput => 4,
            UnitCall::SetDevice => 5,
            UnitCall::GetInputFormat => 6,
            UnitCall::GetOutputFormat => 7,
            UnitCall::SetOutputFormat => 8,
            UnitCall::CheckFormat => 9,
            UnitCall::GetFrameSize => 10,
            UnitCall::GetStreamFormat => 11,
            UnitCall::GetSampleRate => 12,
            UnitCall::WatchAlive => 13,
            UnitCall::WatchFormats => 14,
            UnitCall::SetCallback => 15,
            UnitCall::Initialize => 16,
            UnitCall::Start => 17,
        }
    }

    /// The call after this one.
    pub fn next(self) -> (r: Option<UnitCall>)
        ensures
            match r {
                Some(next) => next.place() == self.place() + 1,
                None => self == UnitCall::Start,
            },
    {
        match self {
            UnitCall::FindDevice => Some(UnitCall::FindComponent),
            UnitCall::FindComponent => Some(UnitCall::NewInstance),
            UnitCall::NewInstance => Some(UnitCall::EnableInput),
            UnitCall::EnableInput => Some(UnitCall::DisableOutput),
            UnitCall::DisableOutput => Some(UnitCall::SetDevice),
            UnitCall::SetDevice => Some(UnitCall::GetInputFormat),
            UnitCall::GetInputFormat => Some(UnitCall::GetOutputFormat),
            UnitCall::GetOutputFormat => Some(UnitCall::SetOutputFormat),
            UnitCall::SetOutputFormat => Some(UnitCall::CheckFormat),
            UnitCall::CheckFormat => Some(UnitCall::GetFrameSize),
            UnitCall::GetFrameSize => Some(UnitCall::GetStreamFormat),
            UnitCall::GetStreamFormat => Some(UnitCall::GetSampleRate),
            UnitCall::GetSampleRate => Some(UnitCall::WatchAlive),
            UnitCall::WatchAlive => Some(UnitCall::WatchFormats),
            UnitCall::WatchFormats => Some(UnitCall::SetCallback),
            UnitCall::SetCallback => Some(UnitCall::Initialize),
            UnitCall::Initialize => Some(UnitCall::Start),
            UnitCall::Start => None,
        }
    }
}

/// What comes next while an input device is opened.
#[derive(Debug, Clone, Copy, PartialEq, Eq, Structural)]
pub enum InitStep {
    Call(UnitCall),
    /// The device is open: opened just now, or open already.
    Ready { opened: bool },
    /// It is not: what was set up has to be taken down.
    Failed,
}

/// A call made while an input device is closed.
#[derive(Debug, Clone, Copy, PartialEq, Eq, Structural)]
pub enum Teardown {
    Stop,
    Uninitialize,
    RemoveHooks,
    Dispose,
    FreeBuffers,
}

/// The number of the linear PCM format.
pub const FORMAT_LINEAR_PCM: u32 = 0x6C70_636D;

/// The channels that are asked of an input with so many of its own.
pub fn asked_channels(input: u32) -> (r: u32)
    ensures
        r == if input <= MAX_INPUT_CHANNELS {
            input
        } else {
            MAX_INPUT_CHANNELS
        },
{
    if input <= MAX_INPUT_CHANNELS {
        input
    } else {
        MAX_INPUT_CHANNELS
    }
}

/// The buffers that a unit renders into.
#[derive(Debug, Clone, Copy, PartialEq, Eq, Structural)]
pub struct RenderBuffers {
    /// The bytes of one channel's buffer.
    pub bytes: usize,
    /// One buffer for each channel.
    pub count: usize,
    /// The words of eight bytes that their list takes.
    pub list_words: usize,
}

/// Sizes the buffers for `frames` frames of `channels` channels, whose list
/// has a header of `header` bytes and entries of `entry` bytes.
pub fn init_buffer(frames: u32, channels: u32, header: usize, entry: usize) -> (r: RenderBuffers)
    requires
        frames * 4 <= usize::MAX,
        channels <= usize::MAX,
        header + entry * channels + entry + 7 <= usize::MAX,
    ensures
        r.bytes == frames * 4,
        r.count == channels,
        r.list_words == (header + entry * if channels == 0 {
            1
        } else {
            channels as int
        } + 7) / 8,
{
    let entries: usize = if channels == 0 {
        1
    } else {
        channels as usize
    };
    assert(entry * entries <= entry * channels + entry) by (nonlinear_arith)
        requires
            entries <= channels + 1,
    ;
    RenderBuffers {
        bytes: frames as usize * 4,
        count: channels as usize,
        list_words: (header + entry * entries + 7) / 8,
    }
}

/// What one rendered buffer of `length` bytes holds of a channel, in bytes.
pub fn rendered_bytes(frames: u32, format: SampleFormat, length: usize) -> (r: usize)
    requires
        frames * 4 <= usize::MAX,
    ensures
        r <= length,
        r == if frames * format.sample_bytes() <= length {
            frames * format.sample_bytes()
        } else {
            length as int
        },
{
    assert(frames * format.sample_bytes() <= frames * 4) by (nonlinear_arith)
        requires
            format.sample_bytes() <= 4,
    ;
    let bytes: usize = frames as usize * format.bytes_per_sample();
    if bytes <= length {
        bytes
    } else {
        length
    }
}

/// The buffers of a unit that are handed on as channels.
pub fn rendered_planes(buffers: usize) -> (r: usize)
    ensures
        r == if buffers <= MAX_AUDIO_CHANNELS {
            buffers
        } else {
            MAX_AUDIO_CHANNELS
        },
{
    if buffers <= MAX_AUDIO_CHANNELS {
        buffers
    } else {
        MAX_AUDIO_CHANNELS
    }
}

/// An input device and the unit that reads it.
#[derive(Debug, Clone, Copy, PartialEq, Eq, Structural)]
pub struct CoreAudioData {
    /// A unit exists.
    pub au_initialized: bool,
    /// The unit runs.
    pub active: bool,
    /// Buffers were set up for it.
    pub buffers: bool,
    pub spec: AudioSpec,
}

impl CoreAudioData {
    /// Only a unit that exists runs or has buffers.
    pub open spec fn wf(self) -> bool {
        (self.active || self.buffers) ==> self.au_initialized
    }

    pub fn new() -> (r: Self)
        ensures
            r.wf(),
            r == (CoreAudioData {
                au_initialized: false,
                active: false,
                buffers: false,
                spec: common_spec(),
            }),
    {
        CoreAudioData {
            au_initialized: false,
            active: false,
            buffers: false,
            spec: AudioSpec { rate: OBS_SAMPLE_RATE, speakers: OBS_SPEAKERS, format: OBS_FORMAT },
        }
    }

    /// Starts to open the device, unless it is open.
    pub fn init(&self) -> (r: InitStep)
        ensures
            r == if self.au_initialized {
                InitStep::Ready { opened: false }
            } else {
                InitStep::Call(UnitCall::FindDevice)
            },
    {
        if self.au_initialized {
            InitStep::Ready { opened: false }
        } else {
            InitStep::Call(UnitCall::FindDevice)
        }
    }

    /// Takes the format that the unit hands out. Tells whether it is one that
    /// is handled.
    pub fn init_format(
        &mut self,
        format_id: u32,
        flags: u32,
        bits: u32,
        rate: u32,
        channels: u32,
    ) -> (ok: bool)
        ensures
            ok == (format_id == FORMAT_LINEAR_PCM && ca_format(flags, bits) is Some),
            *final(self) == (CoreAudioData {
                spec: if ok {
                    AudioSpec {
                        rate,
                        speakers: Speakers::of_count(
                            if channels <= MAX_AUDIO_CHANNELS {
                                channels as int
                            } else {
                                MAX_AUDIO_CHANNELS as int
                            },
                        ),
                        format: ca_format(flags, bits)->0,
                    }
                } else {
                    old(self).spec
                },
                ..*old(self)
            }),
    {
        if format_id != FORMAT_LINEAR_PCM {
            return false;
        }
        match convert_ca_format(flags, bits) {
            Some(format) => {
                let n: usize = if channels <= MAX_AUDIO_CHANNELS as u32 {
                    channels as usize
                } else {
                    MAX_AUDIO_CHANNELS
                };
                self.spec = AudioSpec { rate, speakers: Speakers::from_channels(n), format };
                true
            },
            None => false,
        }
    }

    /// What is left once a call has come back.
    pub open spec fn after_call(self, call: UnitCall, ok: bool) -> CoreAudioData {
        if !ok {
            self
        } else {
            CoreAudioData {
                au_initialized: self.au_initialized || call == UnitCall::NewInstance,
                buffers: self.buffers || call == UnitCall::GetSampleRate,
                active: self.active || call == UnitCall::Start,
                ..self
            }
        }
    }

    /// Takes the outcome of a call and tells what comes next.
    pub fn returned(&mut self, call: UnitCall, ok: bool) -> (r: InitStep)
        requires
            old(self).wf(),
            old(self).au_initialized == (call.place() > UnitCall::NewInstance.place()),
        ensures
            final(self).wf(),
            *final(self) == old(self).after_call(call, ok),
            match r {
                InitStep::Failed => !ok,
                InitStep::Ready { opened } => opened && ok && call == UnitCall::Start,
                InitStep::Call(next) => {
                    &&& ok
                    &&& next.place() == call.place() + 1
                    &&& final(self).au_initialized == (next.place() > UnitCall::NewInstance.place())
                },
            },
    {
        if !ok {
            return InitStep::Failed;
        }
        match call {
            UnitCall::NewInstance => {
                self.au_initialized = true;
            },
            UnitCall::GetSampleRate => {
                self.buffers = true;
            },
            UnitCall::Start => {
                self.active = true;
            },
            _ => {},
        }
        match call.next() {
            Some(next) => InitStep::Call(next),
            None => InitStep::Ready { opened: true },
        }
    }

    /// What a device that was opened just now makes of a capture.
    pub fn opened(&self) -> (r: CaptureState)
        requires
            self.spec.rate < EXACT_RATES,
        ensures
            r matches CaptureState::Active { format } && format@ == description(
                self.spec.rate as nat,
                self.spec.speakers.channel_count() as nat,
            ),
    {
        CaptureState::Active { format: describe(self.spec.rate, self.spec.speakers.channels()) }
    }

    /// The calls that take down what there is.
    pub open spec fn teardown(self) -> Seq<Teardown> {
        if !self.au_initialized {
            seq![]
        } else {
            (if self.active {
                seq![Teardown::Stop]
            } else {
                seq![]
            }) + seq![Teardown::Uninitialize, Teardown::RemoveHooks, Teardown::Dispose] + (
            if self.buffers {
                seq![Teardown::FreeBuffers]
            } else {
                seq![]
            })
        }
    }

    /// Closes the device: a unit that runs is stopped before it is disposed
    /// of, and its buffers are freed last.
    pub fn uninit(&mut self) -> (calls: Vec<Teardown>)
        requires
            old(self).wf(),
        ensures
            final(self).wf(),
            *final(self) == (CoreAudioData {
                au_initialized: false,
                active: false,
                buffers: false,
                spec: old(self).spec,
            }),
            calls@ == old(self).teardown(),
    {
        let mut calls: Vec<Teardown> = Vec::new();
        if !self.au_initialized {
            return calls;
        }
        if self.active {
            self.active = false;
            calls.push(Teardown::Stop);
        }
        calls.push(Teardown::Uninitialize);
        calls.push(Teardown::RemoveHooks);
        calls.push(Teardown::Dispose);
        self.au_initialized = false;
        if self.buffers {
            self.buffers = false;
            calls.push(Teardown::FreeBuffers);
        }
        calls
    }

    /// What a turn of the reconnect thread does: a device that was lost is
    /// closed, and one that is closed is opened.
    pub fn reconnect(&self, state: &CaptureState) -> (r: Reconnect)
        ensures
            r.close == (state is Retrying),
            r.open == (r.close || !self.au_initialized),
    {
        let close = match state {
            CaptureState::Retrying(_) => true,
            _ => false,
        };
        Reconnect { close, open: close || !self.au_initialized }
    }
}

/// A turn of the reconnect thread.
#[derive(Debug, Clone, Copy, PartialEq, Eq, Structural)]
pub struct Reconnect {
    pub close: bool,
    pub open: bool,
}

/// Closing a device that did not open leaves no unit behind, at whatever call
/// opening failed, and every unit that was made is disposed of.
pub proof fn law_a_failed_start_leaves_nothing_behind(data: CoreAudioData, call: UnitCall)
    requires
        data.wf(),
        data.au_initialized == (call.place() > UnitCall::NewInstance.place()),
    ensures
        ({
            let left = data.after_call(call, false);
            &&& left.teardown().contains(Teardown::Dispose) <==> data.au_initialized
            &&& left.teardown().contains(Teardown::FreeBuffers) <==> data.buffers
            &&& left.teardown().contains(Teardown::Stop) <==> data.active
        }),
{
    let calls = data.after_call(call, false).teardown();
    let skip = if data.active {
        1int
    } else {
        0
    };
    if data.au_initialized {
        if data.active {
            assert(calls[0] == Teardown::Stop);
        }
        assert(calls[skip + 2] == Teardown::Dispose);
        if data.buffers {
            assert(calls[skip + 3] == Teardown::FreeBuffers);
        }
    }
}

/// What a device that vanished, or changed its formats, makes of a capture.
pub fn device_notification() -> (r: CaptureState)
    ensures
        r == CaptureState::Retrying(Kind::DeviceDisconnected.plain()),
{
    CaptureState::Retrying(Message::from(Kind::DeviceDisconnected))
}

/// What a device that did not open makes of a capture.
pub fn waiting_for_device() -> (r: CaptureState)
    ensures
        r == CaptureState::Retrying(Kind::WaitingForDevice.plain()),
{
    CaptureState::Retrying(Message::from(Kind::WaitingForDevice))
}

/// What an audio queue is made for.
#[derive(Debug, Clone, Copy, PartialEq, Eq, Structural)]
pub struct QueueFormat {
    pub rate: u32,
    pub format_id: u32,
    pub flags: u32,
    pub bytes_per_frame: u32,
    pub frames_per_packet: u32,
    pub channels: u32,
    pub bits: u32,
    /// The bytes of one buffer, 30 ms.
    pub buffer_size: usize,
    /// Cap on the audio that waits, from [`MAX_BACKLOG_USEC`].
    pub max_backlog: usize,
}

/// The format of every audio queue: interleaved floats at the common rate.
pub fn queue_format() -> (r: QueueFormat)
    ensures
        r.rate == common_spec().rate,
        r.channels == common_spec().speakers.channel_count(),
        r.format_id == FORMAT_LINEAR_PCM,
        r.flags == FLAG_FLOAT + FLAG_PACKED,
        r.bits == 32,
        r.frames_per_packet == 1,
        r.bytes_per_frame == 4 * r.channels,
        r.buffer_size * 100 == r.bytes_per_frame * r.rate * 3,
        r.max_backlog * 1_000_000 == r.bytes_per_frame * r.rate * MAX_BACKLOG_USEC,
        r.buffer_size * 3 <= r.max_backlog,
        ca_format(r.flags, r.bits) == Some(SampleFormat::Float),
{
    QueueFormat {
        rate: OBS_SAMPLE_RATE,
        format_id: FORMAT_LINEAR_PCM,
        flags: FLAG_FLOAT + FLAG_PACKED,
        bytes_per_frame: 8,
        frames_per_packet: 1,
        channels: 2,
        bits: 32,
        buffer_size: 11520,
        max_backlog: 153_600,
    }
}

/// A buffer of the queue and what it is filled with.
#[derive(Debug, PartialEq, Eq)]
pub struct Fill {
    pub buffer: usize,
    pub bytes: Vec<u8>,
}

/// What the queue is told after audio came in, or a buffer came back.
#[derive(Debug, PartialEq, Eq)]
pub struct QueueOrders {
    /// Buffers to enqueue, in order.
    pub fills: Vec<Fill>,
    /// The queue has to start again.
    pub start: bool,
    /// It ran dry and has to pause.
    pub pause: bool,
    /// The bytes of audio that went, the device not taking them.
    pub dropped: usize,
}

/// The audio that waits for an audio queue, and the buffers that wait for
/// audio.
pub struct QueueState {
    pub empty_buffers: VecDeque<usize>,
    pub new_data: VecDeque<u8>,
    pub buffer_size: usize,
    /// Nothing is enqueued until so much has come in.
    pub wait_size: usize,
    pub paused: bool,
    /// Cap on `new_data`.
    pub max_backlog: usize,
}

/// What a [`QueueState`] holds.
#[verifier::ext_equal]
pub ghost struct QueueView {
    pub empty: Seq<usize>,
    pub data: Seq<u8>,
    pub size: nat,
    pub wait: nat,
    pub paused: bool,
    pub cap: nat,
}

impl View for QueueState {
    type V = QueueView;

    open spec fn view(&self) -> QueueView {
        QueueView {
            empty: self.empty_buffers@,
            data: self.new_data@,
            size: self.buffer_size as nat,
            wait: self.wait_size as nat,
            paused: self.paused,
            cap: self.max_backlog as nat,
        }
    }
}

impl QueueView {
    /// A buffer holds something, there are no more of them than the queue
    /// has, and as much as is waited for may wait.
    pub open spec fn sized(self) -> bool {
        &&& self.size > 0
        &&& self.empty.len() <= QUEUE_BUFFERS
        &&& self.wait <= self.size * 3 <= self.cap
    }

    /// No more audio waits than may.
    pub open spec fn wf(self) -> bool {
        self.sized() && self.data.len() <= self.cap
    }

    /// How much has to go for the audio to stay within its cap.
    pub open spec fn overdue(self) -> int {
        if self.data.len() > self.cap {
            self.data.len() - self.cap
        } else {
            0
        }
    }

    /// What stays of it: the oldest audio goes.
    pub open spec fn cut(self) -> QueueView {
        QueueView { data: self.data.skip(self.overdue()), ..self }
    }

    /// How many buffers can be filled: one for each whole buffer of audio, as
    /// long as there are empty ones.
    pub open spec fn filled(self) -> int {
        if self.data.len() / self.size <= self.empty.len() {
            (self.data.len() / self.size) as int
        } else {
            self.empty.len() as int
        }
    }

    /// What is left once those are filled.
    pub open spec fn after_filling(self) -> QueueView {
        QueueView {
            empty: self.empty.skip(self.filled()),
            data: self.data.skip(self.filled() * self.size),
            ..self
        }
    }

    /// Whether `fills` are the first `n` buffers with the first audio.
    pub open spec fn are_fills(self, fills: Seq<Fill>, n: int) -> bool {
        &&& fills.len() == n
        &&& forall|i: int|
            0 <= i < n ==> (#[trigger] fills[i]).buffer == self.empty[i] && fills[i].bytes@
                == self.data.subrange(i * self.size, i * self.size + self.size)
    }

    /// A buffer came back from the queue.
    pub open spec fn after_return(self, buffer: usize) -> QueueView {
        let all = QueueView { empty: self.empty.push(buffer), ..self };
        let left = all.after_filling();
        if left.empty.len() == QUEUE_BUFFERS {
            QueueView { paused: true, wait: self.size * 3, ..left }
        } else {
            left
        }
    }

    /// Audio came in, and filled what could be filled.
    pub open spec fn fed(self, bytes: Seq<u8>) -> QueueView {
        let all = QueueView { data: self.data + bytes, ..self };
        if all.data.len() >= self.wait {
            QueueView { wait: 0, paused: false, ..all.after_filling() }
        } else {
            all
        }
    }

    /// What is left of that: no more than may wait.
    pub open spec fn after_audio(self, bytes: Seq<u8>) -> QueueView {
        self.fed(bytes).cut()
    }
}

impl QueueState {
    /// See [`QueueView::wf`].
    pub open spec fn wf(self) -> bool {
        self@.wf()
    }

    /// All buffers empty, waiting for three buffers of audio.
    pub fn new(buffer_size: usize, max_backlog: usize) -> (r: Self)
        requires
            0 < buffer_size,
            buffer_size * 3 <= max_backlog,
        ensures
            r.wf(),
            r@ == (QueueView {
                empty: seq![0, 1, 2],
                data: seq![],
                size: buffer_size as nat,
                wait: (buffer_size * 3) as nat,
                paused: false,
                cap: max_backlog as nat,
            }),
    {
        let mut empty_buffers: VecDeque<usize> = VecDeque::new();
        empty_buffers.push_back(0);
        empty_buffers.push_back(1);
        empty_buffers.push_back(2);
        QueueState {
            empty_buffers,
            new_data: VecDeque::new(),
            buffer_size,
            wait_size: buffer_size * 3,
            paused: false,
            max_backlog,
        }
    }

    /// Fills one buffer, if there is one and enough audio for it.
    pub fn fill_buffer(&mut self) -> (r: Option<Fill>)
        requires
            old(self)@.sized(),
        ensures
            final(self)@.sized(),
            old(self).wf() ==> final(self).wf(),
            r is Some <==> old(self)@.filled() > 0,
            match r {
                Some(fill) => {
                    &&& fill.buffer == old(self)@.empty[0]
                    &&& fill.bytes@ == old(self)@.data.take(old(self).buffer_size as int)
                    &&& final(self)@ == (QueueView {
                        empty: old(self)@.empty.skip(1),
                        data: old(self)@.data.skip(old(self).buffer_size as int),
                        ..old(self)@
                    })
                },
                None => final(self)@ == old(self)@,
            },
    {
        proof {
            lemma_whole_buffers(self.new_data@.len(), self.buffer_size as nat);
        }
        if self.new_data.len() < self.buffer_size {
            return None;
        }
        match self.empty_buffers.pop_front() {
            None => None,
            Some(buffer) => {
                let ghost data = self.new_data@;
                let mut bytes: Vec<u8> = Vec::new();
                while bytes.len() < self.buffer_size
                    invariant
                        bytes@.len() <= self.buffer_size <= data.len(),
                        bytes@ =~= data.take(bytes@.len() as int),
                        self.new_data@ =~= data.skip(bytes@.len() as int),
                        self.buffer_size == old(self).buffer_size,
                        self.wait_size == old(self).wait_size,
                        self.paused == old(self).paused,
                        self.max_backlog == old(self).max_backlog,
                        self.empty_buffers@ == old(self).empty_buffers@.skip(1),
                    decreases self.buffer_size - bytes@.len(),
                {
                    if let Some(byte) = self.new_data.pop_front() {
                        bytes.push(byte);
                    }
                }
                Some(Fill { buffer, bytes })
            },
        }
    }

    /// Fills buffers as long as there are empty ones and enough audio.
    fn fill_buffers(&mut self) -> (fills: Vec<Fill>)
        requires
            old(self)@.sized(),
        ensures
            final(self)@.sized(),
            old(self).wf() ==> final(self).wf(),
            final(self)@ == old(self)@.after_filling(),
            old(self)@.are_fills(fills@, old(self)@.filled()),
    {
        let mut fills: Vec<Fill> = Vec::new();
        let ghost before = self@;
        let ghost size = self.buffer_size as int;
        assert(0 * size == 0) by (nonlinear_arith);
        assert(before.data.skip(0) =~= before.data);
        assert(before.empty.skip(0) =~= before.empty);
        proof {
            lemma_whole_buffers(before.data.len(), size as nat);
        }
        let mut going = true;
        while going
            invariant
                self@.sized(),
                old(self).wf() ==> self.wf(),
                size == self.buffer_size,
                before.size == size,
                before == old(self)@,
                fills@.len() <= before.filled(),
                before.filled() * size <= before.data.len(),
                before.filled() <= before.empty.len(),
                self@ == (QueueView {
                    empty: before.empty.skip(fills@.len() as int),
                    data: before.data.skip(fills@.len() * size),
                    ..before
                }),
                before.are_fills(fills@, fills@.len() as int),
                !going ==> fills@.len() == before.filled(),
            decreases before.filled() - fills@.len() + if going {
                1int
            } else {
                0
            },
        {
            let ghost done = fills@.len() as int;
            assert(done * size <= before.filled() * size) by (nonlinear_arith)
                requires
                    done <= before.filled(),
                    size >= 0,
            ;
            proof {
                lemma_rest(before, done);
            }
            match self.fill_buffer() {
                Some(fill) => {
                    assert((done + 1) * size == done * size + size) by (nonlinear_arith);
                    assert((done + 1) * size <= before.filled() * size) by (nonlinear_arith)
                        requires
                            done + 1 <= before.filled(),
                            size >= 0,
                    ;
                    assert(fill.bytes@ =~= before.data.subrange(done * size, done * size + size));
                    fills.push(fill);
                    assert(self@ =~= (QueueView {
                        empty: before.empty.skip(done + 1),
                        data: before.data.skip((done + 1) * size),
                        ..before
                    }));
                },
                None => {
                    going = false;
                },
            }
        }
        fills
    }

    /// Takes a buffer back from the queue and fills what can be filled. With
    /// every buffer empty, the queue pauses until three are filled again.
    pub fn buffer_audio(&mut self, buffer: usize) -> (orders: QueueOrders)
        requires
            old(self).wf(),
            old(self)@.empty.len() < QUEUE_BUFFERS,
        ensures
            final(self).wf(),
            final(self)@ == old(self)@.after_return(buffer),
            ({
                let all = QueueView { empty: old(self)@.empty.push(buffer), ..old(self)@ };
                &&& all.are_fills(orders.fills@, all.filled())
                &&& orders.pause == (all.after_filling().empty.len() == QUEUE_BUFFERS)
                &&& !orders.start
                &&& orders.dropped == 0
            }),
    {
        self.empty_buffers.push_back(buffer);
        assert(self@.empty =~= old(self)@.empty.push(buffer));
        let fills = self.fill_buffers();
        let mut pause = false;
        if self.empty_buffers.len() == QUEUE_BUFFERS {
            self.paused = true;
            self.wait_size = self.buffer_size * 3;
            pause = true;
        }
        QueueOrders { fills, start: false, pause, dropped: 0 }
    }

    /// Takes out the oldest audio where too much waits. Returns how many bytes
    /// went.
    fn cut(&mut self) -> (dropped: usize)
        ensures
            dropped == old(self)@.overdue(),
            final(self)@ == old(self)@.cut(),
    {
        let len: usize = self.new_data.len();
        let mut dropped: usize = 0;
        assert(self@.data.skip(0) =~= self@.data);
        while self.new_data.len() > self.max_backlog
            invariant
                len == old(self)@.data.len(),
                dropped <= len,
                dropped <= old(self)@.overdue(),
                self@ == (QueueView {
                    data: old(self)@.data.skip(dropped as int),
                    ..old(self)@
                }),
            decreases self.new_data@.len(),
        {
            let _ = self.new_data.pop_front();
            dropped += 1;
            assert(self@.data =~= old(self)@.data.skip(dropped as int));
        }
        dropped
    }

    /// Takes audio and, once enough waits, fills what can be filled and
    /// starts the queue where it had paused. What is still too much goes.
    pub fn on_audio(&mut self, bytes: &Vec<u8>) -> (orders: QueueOrders)
        requires
            old(self).wf(),
            old(self)@.data.len() + bytes@.len() <= usize::MAX,
        ensures
            final(self).wf(),
            final(self)@ == old(self)@.after_audio(bytes@),
            ({
                let all = QueueView { data: old(self)@.data + bytes@, ..old(self)@ };
                let enough = all.data.len() >= all.wait;
                &&& all.are_fills(
                    orders.fills@,
                    if enough {
                        all.filled()
                    } else {
                        0
                    },
                )
                &&& orders.start == (enough && all.paused)
                &&& !orders.pause
                &&& orders.dropped == old(self)@.fed(bytes@).overdue()
            }),
    {
        let mut i: usize = 0;
        while i < bytes.len()
            invariant
                i <= bytes@.len(),
                self.new_data@ =~= old(self).new_data@ + bytes@.take(i as int),
                self.empty_buffers == old(self).empty_buffers,
                self.buffer_size == old(self).buffer_size,
                self.wait_size == old(self).wait_size,
                self.paused == old(self).paused,
                self.max_backlog == old(self).max_backlog,
            decreases bytes@.len() - i,
        {
            self.new_data.push_back(bytes[i]);
            i += 1;
        }
        assert(bytes@.take(i as int) =~= bytes@);
        let mut fills: Vec<Fill> = Vec::new();
        let mut start = false;
        let ghost all = self@;
        if self.new_data.len() >= self.wait_size {
            self.wait_size = 0;
            let ghost going = self@;
            fills = self.fill_buffers();
            assert(going.filled() == all.filled());
            if self.paused {
                start = true;
                self.paused = false;
            }
        }
        assert(self@ == old(self)@.fed(bytes@));
        let dropped: usize = self.cut();
        QueueOrders { fills, start, pause: false, dropped }
    }
}

/// A whole buffer of audio is there exactly where the length says so.
proof fn lemma_whole_buffers(length: nat, size: nat)
    requires
        size > 0,
    ensures
        length / size > 0 <==> length >= size,
        length / size * size <= length,
        forall|n: int| 0 <= n <= length / size ==> #[trigger] (n * size) <= length,
{
    assert(length / size * size <= length && (length / size > 0 <==> length >= size))
        by (nonlinear_arith)
        requires
            size > 0,
    ;
    assert forall|n: int| 0 <= n <= length / size implies #[trigger] (n * size) <= length by {
        assert(n * size <= length / size * size) by (nonlinear_arith)
            requires
                0 <= n <= length / size,
                size > 0,
        ;
    }
}

/// What can still be filled once `done` buffers are.
proof fn lemma_rest(v: QueueView, done: int)
    requires
        v.size > 0,
        0 <= done <= v.filled(),
    ensures
        ({
            let rest = QueueView {
                empty: v.empty.skip(done),
                data: v.data.skip(done * v.size),
                ..v
            };
            rest.filled() == v.filled() - done
        }),
{
    lemma_whole_buffers(v.data.len(), v.size);
    assert(done * v.size <= v.data.len());
    let n = v.data.len() as int;
    let size = v.size as int;
    assert((n - done * size) / size == n / size - done) by (nonlinear_arith)
        requires
            size > 0,
            n >= 0,
    ;
}

/// Audio reaches the queue in the order in which it came, and filling buffers
/// loses none: what is filled, followed by what is left, is what there was.
pub proof fn law_audio_keeps_its_order(v: QueueView, fills: Seq<Fill>)
    requires
        v.size > 0,
        v.are_fills(fills, v.filled()),
    ensures
        concatenated(fills) + v.after_filling().data == v.data,
{
    lemma_whole_buffers(v.data.len(), v.size);
    lemma_concatenated(v, fills, v.filled());
    assert(fills.take(v.filled()) =~= fills);
    assert(v.data.take(v.filled() * v.size) + v.data.skip(v.filled() * v.size) =~= v.data);
}

/// The audio of buffers, one after the other.
pub open spec fn concatenated(fills: Seq<Fill>) -> Seq<u8>
    decreases fills.len(),
{
    if fills.len() == 0 {
        seq![]
    } else {
        concatenated(fills.drop_last()) + fills.last().bytes@
    }
}

proof fn lemma_concatenated(v: QueueView, fills: Seq<Fill>, n: int)
    requires
        v.size > 0,
        v.are_fills(fills, v.filled()),
        0 <= n <= v.filled(),
    ensures
        concatenated(fills.take(n)) == v.data.take(n * v.size),
    decreases n,
{
    lemma_whole_buffers(v.data.len(), v.size);
    if n == 0 {
        assert(n * v.size == 0) by (nonlinear_arith)
            requires
                n == 0,
        ;
        assert(v.data.take(0) =~= seq![]);
        assert(fills.take(0) =~= seq![]);
    } else {
        lemma_concatenated(v, fills, n - 1);
        assert(fills.take(n).drop_last() =~= fills.take(n - 1));
        assert(n * v.size == (n - 1) * v.size + v.size) by (nonlinear_arith);
        assert(n * v.size <= v.data.len());
        assert(fills[n - 1].bytes@ == v.data.subrange(
            (n - 1) * v.size,
            (n - 1) * v.size + v.size,
        ));
        assert(v.data.take(n * v.size) =~= v.data.take((n - 1) * v.size) + v.data.subrange(
            (n - 1) * v.size,
            n * v.size,
        ));
    }
}

/// A queue that ran dry stays silent until it has three buffers of audio.
pub proof fn law_a_dry_queue_waits_for_three_buffers(v: QueueView, buffer: usize, bytes: Seq<u8>)
    requires
        v.size > 0,
        v.after_return(buffer).empty.len() == QUEUE_BUFFERS,
    ensures
        ({
            let dry = v.after_return(buffer);
            let fed = dry.after_audio(bytes);
            &&& dry.paused
            &&& fed.paused <==> dry.data.len() + bytes.len() < v.size * 3
        }),
{
}

/// However much comes in, no more than the cap waits. Audio goes only where
/// the queue has no buffer left to fill; what goes is the oldest, and the rest
/// keeps its order.
pub proof fn law_a_full_queue_is_cut_back(v: QueueView, bytes: Seq<u8>, buffer: usize)
    requires
        v.wf(),
    ensures
        ({
            let fed = v.fed(bytes);
            let after = v.after_audio(bytes);
            &&& after.wf()
            &&& after.data.len() <= v.cap
            &&& fed.overdue() > 0 ==> fed.empty.len() == 0 && after.data.len() == v.cap
            &&& fed.overdue() == 0 ==> after == fed
            &&& fed.data.take(fed.overdue()) + after.data == fed.data
        }),
        v.empty.len() < QUEUE_BUFFERS ==> v.after_return(buffer).wf(),
{
    let all = QueueView { data: v.data + bytes, ..v };
    lemma_filling(all);
    let fed = v.fed(bytes);
    assert(fed.data.take(fed.overdue()) + fed.data.skip(fed.overdue()) =~= fed.data);
    if fed.overdue() == 0 {
        assert(fed.data.skip(0) =~= fed.data);
    }
    lemma_filling(QueueView { empty: v.empty.push(buffer), ..v });
}

/// Filling leaves less than a buffer of audio, or no empty buffer.
proof fn lemma_filling(v: QueueView)
    requires
        v.size > 0,
    ensures
        v.after_filling().data.len() < v.size || v.after_filling().empty.len() == 0,
        v.after_filling().data.len() <= v.data.len(),
        v.after_filling().empty.len() <= v.empty.len(),
{
    lemma_whole_buffers(v.data.len(), v.size);
    let n = v.data.len() as int;
    let size = v.size as int;
    assert(n - n / size * size < size) by (nonlinear_arith)
        requires
            size > 0,
            n >= 0,
    ;
    assert(0 <= v.filled() * size) by (nonlinear_arith)
        requires
            v.filled() >= 0,
            size > 0,
    ;
}

/// A device that vanished is told from one that plays.
pub fn monitor_state(alive: bool, format: &str) -> (r: MonitorState)
    ensures
        if alive {
            r matches MonitorState::Playing { format: f } && f@ == format@
        } else {
            r == MonitorState::Reconnecting(Kind::DeviceDisconnected.plain())
        },
{
    if alive {
        MonitorState::Playing { format: format.to_owned() }
    } else {
        MonitorState::Reconnecting(Message::from(Kind::DeviceDisconnected))
    }
}

/// Whether playing on `device` would feed a source into itself.
pub open spec fn feeds_itself(source: Seq<char>, device: Seq<char>) -> bool {
    source == OUTPUT_PREFIX@ + device
}

/// Whether the source records what `device` plays.
pub fn is_self_monitor(source: &str, device: &str) -> (r: bool)
    ensures
        r == feeds_itself(source@, device@),
{
    proof {
        reveal_strlit("output:");
    }
    match strip_prefix(source, OUTPUT_PREFIX) {
        Some(uid) => {
            let r = same(uid.as_str(), device);
            assert(source@.skip(OUTPUT_PREFIX@.len() as int) =~= uid@);
            assert((OUTPUT_PREFIX@ + device@).skip(OUTPUT_PREFIX@.len() as int) =~= device@);
            r
        },
        None => {
            assert((OUTPUT_PREFIX@ + device@).subrange(0, OUTPUT_PREFIX@.len() as int)
                =~= OUTPUT_PREFIX@);
            false
        },
    }
}

/// A loopback driver is never played on while it is recorded: the source that
/// the device list gives it is left alone by a monitor on the same device.
pub proof fn law_a_recorded_driver_is_left_alone(
    s: SourceInfo,
    d: DeviceFacts,
    default_in: Option<u32>,
)
    requires
        is_source(s, d, default_in),
        s.captures_output is Some,
    ensures
        feeds_itself(s.id@, s.captures_output->0@),
{
}

/// A call made while an audio queue is set up, in order.
#[derive(Debug, Clone, Copy, PartialEq, Eq, Structural)]
pub enum QueueCall {
    Resampler,
    NewOutput,
    SetDevice,
    SetVolume,
    /// Made once for each buffer.
    AllocateBuffer,
    Start,
}

/// What comes next while an audio queue is set up.
#[derive(Debug, PartialEq, Eq)]
pub enum QueueStep {
    Call(QueueCall),
    /// The queue plays.
    Running,
    Failed(Message),
}

impl QueueCall {
    /// What a call that failed is reported as.
    pub open spec fn failure(self) -> Kind {
        match self {
            QueueCall::Resampler => Kind::Resampler,
            QueueCall::NewOutput => Kind::QueueCreate,
            QueueCall::SetDevice => Kind::OutputUnavailable,
            QueueCall::SetVolume => Kind::QueueVolume,
            QueueCall::AllocateBuffer => Kind::QueueBuffers,
            QueueCall::Start => Kind::QueueStart,
        }
    }

    /// The call after this one, with `allocated` buffers made so far.
    pub open spec fn next(self, allocated: int) -> Option<QueueCall> {
        match self {
            QueueCall::Resampler => Some(QueueCall::NewOutput),
            QueueCall::NewOutput => Some(QueueCall::SetDevice),
            QueueCall::SetDevice => Some(QueueCall::SetVolume),
            QueueCall::SetVolume => Some(QueueCall::AllocateBuffer),
            QueueCall::AllocateBuffer => if allocated < QUEUE_BUFFERS {
                Some(QueueCall::AllocateBuffer)
            } else {
                Some(QueueCall::Start)
            },
            QueueCall::Start => None,
        }
    }

    /// Takes the outcome of a call and tells what comes next.
    pub fn returned(self, ok: bool, allocated: usize) -> (r: QueueStep)
        ensures
            r == if !ok {
                QueueStep::Failed(self.failure().plain())
            } else {
                match self.next(allocated as int) {
                    Some(next) => QueueStep::Call(next),
                    None => QueueStep::Running,
                }
            },
    {
        if ok {
            match self {
                QueueCall::Resampler => QueueStep::Call(QueueCall::NewOutput),
                QueueCall::NewOutput => QueueStep::Call(QueueCall::SetDevice),
                QueueCall::SetDevice => QueueStep::Call(QueueCall::SetVolume),
                QueueCall::SetVolume => QueueStep::Call(QueueCall::AllocateBuffer),
                QueueCall::AllocateBuffer => if allocated < QUEUE_BUFFERS {
                    QueueStep::Call(QueueCall::AllocateBuffer)
                } else {
                    QueueStep::Call(QueueCall::Start)
                },
                QueueCall::Start => QueueStep::Running,
            }
        } else {
            match self {
                QueueCall::Resampler => QueueStep::Failed(Message::from(Kind::Resampler)),
                QueueCall::NewOutput => QueueStep::Failed(Message::from(Kind::QueueCreate)),
                QueueCall::SetDevice => QueueStep::Failed(Message::from(Kind::OutputUnavailable)),
                QueueCall::SetVolume => QueueStep::Failed(Message::from(Kind::QueueVolume)),
                QueueCall::AllocateBuffer => QueueStep::Failed(Message::from(Kind::QueueBuffers)),
                QueueCall::Start => QueueStep::Failed(Message::from(Kind::QueueStart)),
            }
        }
    }
}

/// How a monitor on an output begins: not at all where the source records
/// that output, else with the first call. None for the former.
pub fn create_monitor(source: &str, device: &str) -> (r: Option<QueueCall>)
    ensures
        r == if feeds_itself(source@, device@) {
            None
        } else {
            Some(QueueCall::Resampler)
        },
{
    if is_self_monitor(source, device) {
        None
    } else {
        Some(QueueCall::Resampler)
    }
}

/// Four characters stand for one number and no others do.
pub proof fn law_four_characters_are_told_apart(a: &[u8; 4], b: &[u8; 4], x: u32, y: u32)
    requires
        call_ensures(fourcc, (a,), x),
        call_ensures(fourcc, (b,), y),
    ensures
        x == y <==> a[0] == b[0] && a[1] == b[1] && a[2] == b[2] && a[3] == b[3],
        a[0] < b[0] ==> x < y,
        a[0] == b[0] && a[1] < b[1] ==> x < y,
        a[0] == b[0] && a[1] == b[1] && a[2] < b[2] ==> x < y,
{
}

/// A property is looked for where it is asked, on the main element, and a call
/// went well with the code nought alone.
pub proof fn law_a_property_is_asked_where_it_is(
    selector: u32,
    scope: u32,
    r: PropertyAddress,
    stat: i32,
    ok: bool,
)
    requires
        call_ensures(address, (selector, scope), r),
        call_ensures(ca_success, (stat,), ok),
    ensures
        r.selector == selector && r.scope == scope && r.element == 0,
        ok <==> stat == 0,
{
}

/// A stream of floats is taken whatever its bits, bytes are taken unsigned, and
/// words of two or four bytes signed; nothing else is. What is taken keeps its
/// width, its kind and whether its channels are stored apart.
pub proof fn law_a_format_is_taken_as_it_is(flags: u32, bits: u32, r: Option<SampleFormat>)
    requires
        call_ensures(convert_ca_format, (flags, bits), r),
    ensures
        ({
            let float = flags % 2 == 1;
            let signed_integer = flags / 4 % 2 == 1;
            let apart = flags / 32 % 2 == 1;
            &&& r is Some <==> float || (!signed_integer && bits == 8) || (signed_integer && (bits
                == 16 || bits == 32))
            &&& r matches Some(format) ==> {
                &&& format.planar() <==> apart
                &&& (format is Float || format is FloatPlanar) <==> float
                &&& (format is U8 || format is U8Planar) <==> !float && bits == 8
                &&& (format is S16 || format is S16Planar) <==> !float && bits == 16
                &&& (format is S32 || format is S32Planar) <==> !float && bits == 32
            }
        }),
{
    assert(flags / 1 == flags);
}

/// A device is an output capture exactly where its name, in small letters,
/// holds that of one of the known loopback drivers.
pub proof fn law_loopback_drivers_are_known(
    name: &str,
    input: bool,
    lowered: &str,
    driver: bool,
)
    requires
        call_ensures(device_is_input, (name,), input),
        call_ensures(names_loopback_driver, (lowered,), driver),
        lowered@ == lowercase(name@),
    ensures
        input <==> !driver,
        ({
            let s = lowered@;
            let known = seq![
                "blackhole"@,
                "soundflower"@,
                "loopback"@,
                "vbcable"@,
                "wavtap"@,
                "soundsiphon"@,
                "ishowu"@,
                "groundcontrol"@,
            ];
            &&& forall|i: int| 0 <= i < 8 && text::occurs(s, #[trigger] known[i]) ==> driver
            &&& driver ==> exists|i: int| 0 <= i < 8 && text::occurs(s, #[trigger] known[i])
        }),
{
    let s = lowered@;
    let known = seq![
        "blackhole"@,
        "soundflower"@,
        "loopback"@,
        "vbcable"@,
        "wavtap"@,
        "soundsiphon"@,
        "ishowu"@,
        "groundcontrol"@,
    ];
    assert(known[0] == "blackhole"@ && known[1] == "soundflower"@ && known[2] == "loopback"@
        && known[3] == "vbcable"@ && known[4] == "wavtap"@ && known[5] == "soundsiphon"@ && known[6]
        == "ishowu"@ && known[7] == "groundcontrol"@);
}

proof fn lemma_source_listed(
    sources: Seq<SourceInfo>,
    devices: Seq<DeviceFacts>,
    default_in: Option<u32>,
    j: int,
) -> (n: int)
    requires
        lists_sources(sources, devices, default_in),
        0 <= j < devices.len(),
        devices[j].uid is Some && devices[j].has_inputs,
    ensures
        0 <= n < sources.len(),
        is_source(sources[n], devices[j], default_in),
    decreases devices.len(),
{
    let rest = devices.drop_last();
    if j == devices.len() - 1 {
        sources.len() - 1
    } else if devices.last().uid is Some && devices.last().has_inputs {
        lemma_source_listed(sources.drop_last(), rest, default_in, j)
    } else {
        lemma_source_listed(sources, rest, default_in, j)
    }
}

proof fn lemma_device_of_source(
    sources: Seq<SourceInfo>,
    devices: Seq<DeviceFacts>,
    default_in: Option<u32>,
    n: int,
) -> (j: int)
    requires
        lists_sources(sources, devices, default_in),
        0 <= n < sources.len(),
    ensures
        0 <= j < devices.len(),
        devices[j].uid is Some && devices[j].has_inputs,
        is_source(sources[n], devices[j], default_in),
    decreases devices.len(),
{
    let rest = devices.drop_last();
    if devices.last().uid is Some && devices.last().has_inputs {
        if n == sources.len() - 1 {
            devices.len() - 1
        } else {
            lemma_device_of_source(sources.drop_last(), rest, default_in, n)
        }
    } else {
        lemma_device_of_source(sources, rest, default_in, n)
    }
}

proof fn lemma_output_listed(
    outputs: Seq<OutputInfo>,
    devices: Seq<DeviceFacts>,
    default_out: Option<u32>,
    j: int,
) -> (n: int)
    requires
        lists_outputs(outputs, devices, default_out),
        0 <= j < devices.len(),
        devices[j].uid is Some && devices[j].has_outputs,
    ensures
        0 <= n < outputs.len(),
        is_output(outputs[n], devices[j], default_out),
    decreases devices.len(),
{
    let rest = devices.drop_last();
    if j == devices.len() - 1 {
        outputs.len() - 1
    } else if devices.last().uid is Some && devices.last().has_outputs {
        lemma_output_listed(outputs.drop_last(), rest, default_out, j)
    } else {
        lemma_output_listed(outputs, rest, default_out, j)
    }
}

proof fn lemma_device_of_output(
    outputs: Seq<OutputInfo>,
    devices: Seq<DeviceFacts>,
    default_out: Option<u32>,
    n: int,
) -> (j: int)
    requires
        lists_outputs(outputs, devices, default_out),
        0 <= n < outputs.len(),
    ensures
        0 <= j < devices.len(),
        devices[j].uid is Some && devices[j].has_outputs,
        is_output(outputs[n], devices[j], default_out),
    decreases devices.len(),
{
    let rest = devices.drop_last();
    if devices.last().uid is Some && devices.last().has_outputs {
        if n == outputs.len() - 1 {
            devices.len() - 1
        } else {
            lemma_device_of_output(outputs.drop_last(), rest, default_out, n)
        }
    } else {
        lemma_device_of_output(outputs, rest, default_out, n)
    }
}

/// Each device with a lasting id is listed: under that id and its name as an
/// output where it has outputs, marked where it is the default one; and as a
/// source where it has inputs. Desktop audio stands first.
pub proof fn law_every_device_is_listed(
    devices: &Vec<DeviceFacts>,
    default_out: Option<u32>,
    default_in: Option<u32>,
    list: DeviceList,
    j: int,
)
    requires
        call_ensures(enumerate, (devices, default_out, default_in), list),
        0 <= j < devices@.len(),
        devices@[j].uid is Some,
    ensures
        list.sources@.len() >= 1,
        list.sources@[0].id@ == DESKTOP@ && list.sources@[0].captures_output is None,
        list.sources@[0].name@ == "Default output"@ && list.sources@[0].kind is Desktop,
        !list.sources@[0].is_default,
        devices@[j].has_outputs ==> exists|n: int|
            0 <= n < list.outputs@.len() && {
                let o = #[trigger] list.outputs@[n];
                &&& o.id == devices@[j].uid->0
                &&& o.name == devices@[j].name
                &&& o.is_default <==> default_out == Some(devices@[j].id)
            },
        devices@[j].has_inputs ==> exists|n: int|
            1 <= n < list.sources@.len() && {
                let s = #[trigger] list.sources@[n];
                let loopback = is_loopback_driver(lowercase(devices@[j].name@));
                &&& s.name == devices@[j].name
                &&& s.id@ == (if loopback {
                    OUTPUT_PREFIX@
                } else {
                    INPUT_PREFIX@
                }) + devices@[j].uid->0@
                &&& loopback ==> s.captures_output == devices@[j].uid && s.kind is Loopback
                &&& !loopback ==> s.captures_output is None && s.kind is Capture
                &&& s.is_default <==> !loopback && default_in == Some(devices@[j].id)
            },
{
    let sources = list.sources@.skip(1);
    if devices@[j].has_inputs {
        let n = lemma_source_listed(sources, devices@, default_in, j);
        assert(list.sources@[n + 1] == sources[n]);
    }
    if devices@[j].has_outputs {
        let n = lemma_output_listed(list.outputs@, devices@, default_out, j);
    }
}

/// Nothing but the devices is listed, and choosing what is listed opens the
/// device it was listed for; a source that records an output is never played
/// on that one.
pub proof fn law_a_listed_source_opens_its_device(
    devices: &Vec<DeviceFacts>,
    default_out: Option<u32>,
    default_in: Option<u32>,
    list: DeviceList,
    n: int,
    id: &str,
    r: Result<CaptureTarget, Message>,
    output: &str,
    kept_out: bool,
)
    requires
        call_ensures(enumerate, (devices, default_out, default_in), list),
        0 <= n < list.sources@.len(),
        id@ == list.sources@[n].id@,
        call_ensures(start_capture, (id,), r),
        call_ensures(is_self_monitor, (id, output), kept_out),
    ensures
        n == 0 ==> r == Ok::<CaptureTarget, Message>(CaptureTarget::Desktop) && !kept_out,
        n > 0 ==> exists|j: int|
            0 <= j < devices@.len() && {
                let d = #[trigger] devices@[j];
                &&& d.uid is Some && d.has_inputs
                &&& list.sources@[n].name == d.name
                &&& r matches Ok(CaptureTarget::Input(uid)) && uid@ == d.uid->0@
                &&& kept_out <==> list.sources@[n].captures_output is Some && output@ == d.uid->0@
            },
{
    reveal_strlit("desktop");
    reveal_strlit("input:");
    reveal_strlit("output:");
    if n == 0 {
        assert(id@[0] == 'd');
        assert((OUTPUT_PREFIX@ + output@)[0] == 'o');
    } else {
        let sources = list.sources@.skip(1);
        assert(sources[n - 1] == list.sources@[n]);
        let j = lemma_device_of_source(sources, devices@, default_in, n - 1);
        let d = devices@[j];
        let uid = d.uid->0@;
        if is_loopback_driver(lowercase(d.name@)) {
            assert(id@[0] == 'o');
            assert(text::occurs_at(id@, OUTPUT_PREFIX@, 0)) by {
                assert(id@.subrange(0, 7) =~= OUTPUT_PREFIX@);
            }
            assert(!text::occurs_at(id@, INPUT_PREFIX@, 0)) by {
                assert(id@.subrange(0, 6)[0] == 'o');
            }
            let found = r->Ok_0->Input_0@;
            assert(found =~= (OUTPUT_PREFIX@ + found).skip(7));
            assert(uid =~= (OUTPUT_PREFIX@ + uid).skip(7));
            assert(output@ =~= (OUTPUT_PREFIX@ + output@).skip(7));
        } else {
            assert(id@[0] == 'i');
            assert(text::occurs_at(id@, INPUT_PREFIX@, 0)) by {
                assert(id@.subrange(0, 6) =~= INPUT_PREFIX@);
            }
            let found = r->Ok_0->Input_0@;
            assert(found =~= (INPUT_PREFIX@ + found).skip(6));
            assert(uid =~= (INPUT_PREFIX@ + uid).skip(6));
            assert((OUTPUT_PREFIX@ + output@)[0] == 'o');
        }
    }
}

/// A source records one device at the most, and only a monitor on that one is
/// kept out; every other output is opened.
pub proof fn law_only_the_recorded_device_is_kept_out(
    source: &str,
    device: &str,
    kept_out: bool,
    first: Option<QueueCall>,
    other: &str,
    other_out: bool,
)
    requires
        call_ensures(is_self_monitor, (source, device), kept_out),
        call_ensures(create_monitor, (source, device), first),
        call_ensures(is_self_monitor, (source, other), other_out),
    ensures
        kept_out && other_out ==> device@ == other@,
        source@ == DESKTOP@ ==> !kept_out,
        source@ == OUTPUT_PREFIX@ + other@ ==> (kept_out <==> device@ == other@),
        source@ == INPUT_PREFIX@ + other@ ==> !kept_out,
        first is None <==> kept_out,
        !kept_out ==> first == Some(QueueCall::Resampler),
{
    reveal_strlit("desktop");
    reveal_strlit("input:");
    reveal_strlit("output:");
    assert((OUTPUT_PREFIX@ + device@)[0] == 'o');
    assert((INPUT_PREFIX@ + other@)[0] == 'i');
    assert(DESKTOP@[0] == 'd');
    assert(device@ =~= (OUTPUT_PREFIX@ + device@).skip(7));
    assert(other@ =~= (OUTPUT_PREFIX@ + other@).skip(7));
}

/// The channels of a buffer lie side by side in it: no more of them are handed
/// on than there are or than are handled, each with all of its bytes, and the
/// frames are as many as fill the buffer. The layout has the channels that the
/// stream has.
pub proof fn law_a_buffer_is_shared_by_its_channels(
    channels: u32,
    bytes: u32,
    length: usize,
    r: Option<StreamLayout>,
)
    requires
        call_ensures(stream_layout, (channels, bytes, length), r),
        length <= u32::MAX,
    ensures
        r is None <==> channels == 0,
        r matches Some(l) ==> {
            &&& l.channels <= channels && l.channels <= 8
            &&& channels <= 8 ==> l.channels == channels
            &&& channels > 8 ==> l.channels == 8
            &&& l.plane_len * channels <= length < (l.plane_len + 1) * channels
            &&& bytes > 0 ==> l.frames * channels * bytes <= length < (l.frames + 1) * channels
                * bytes
            &&& bytes == 0 ==> l.frames * channels <= length < (l.frames + 1) * channels
            &&& (1 <= channels <= 6 || channels == 8) ==> l.speakers.channel_count() == channels
        },
{
    if channels > 0 {
        let l = r->0;
        let n = length as int;
        let c = channels as int;
        let b = bytes as int;
        assert(n / c * c <= n < (n / c + 1) * c) by (nonlinear_arith)
            requires
                c > 0,
        ;
        if bytes == 0 {
            assert(0 <= n / c <= n) by (nonlinear_arith)
                requires
                    c > 0,
                    n >= 0,
            ;
            assert(n / 1 == n);
        }
        if bytes > 0 {
            let f = n / b / c;
            assert(0 <= f <= n) by (nonlinear_arith)
                requires
                    f == n / b / c,
                    b > 0,
                    c > 0,
                    n >= 0,
            ;
            assert(l.frames == f);
            assert(f * c * b <= n < (f + 1) * c * b) by (nonlinear_arith)
                requires
                    f == n / b / c,
                    b > 0,
                    c > 0,
                    n >= 0,
            {
                let q = n / b;
                assert(f * c <= q < (f + 1) * c);
                assert(q * b <= n < (q + 1) * b);
                assert(f * c * b <= q * b);
                assert((q + 1) * b <= (f + 1) * c * b);
            }
        }
    }
}

/// A screen capture has sound, in stereo, and leaves out what this process
/// plays, so that monitoring never feeds back; the display is the main one.
pub proof fn law_a_screen_capture_leaves_this_process_out(
    config: StreamConfig,
    displays: &Vec<u32>,
    main: u32,
    r: Option<usize>,
)
    requires
        call_ensures(stream_config, (), config),
        call_ensures(main_display, (displays, main), r),
    ensures
        config.captures_audio && config.excludes_current_process_audio,
        !config.shows_cursor,
        config.channels == OBS_SPEAKERS.channel_count(),
        r is Some <==> displays@.contains(main),
        r matches Some(i) ==> i < displays@.len() && displays@[i as int] == main,
{
    if let Some(i) = r {
        assert(displays@[i as int] == main);
    }
}

/// A screen capture starts only once all its calls have gone well, each made
/// once and in order; the first that fails ends it, and is named.
pub proof fn law_a_screen_capture_starts_in_order(
    call: DesktopCall,
    failure: Option<DesktopFailure>,
    r: DesktopStep,
)
    requires
        call_ensures(start_desktop, (call, failure), r),
    ensures
        failure is None ==> match call {
            DesktopCall::Content => r == DesktopStep::Call(DesktopCall::Display),
            DesktopCall::Display => r == DesktopStep::Call(DesktopCall::VideoOutput),
            DesktopCall::VideoOutput => r == DesktopStep::Call(DesktopCall::AudioOutput),
            DesktopCall::AudioOutput => r == DesktopStep::Call(DesktopCall::Start),
            DesktopCall::Start => r matches DesktopStep::Running(CaptureState::Active { format })
                && format@ == description(48_000, 2),
        },
        failure matches Some(f) ==> (r matches DesktopStep::Failed(m) && match f {
            DesktopFailure::Timeout => m.kind is ScreenTimeout && m.detail is None,
            DesktopFailure::Denied => m.kind is ScreenPermission && m.detail is None,
            DesktopFailure::NoDisplay => m.kind is MainDisplay && m.detail is None,
            DesktopFailure::VideoOutput(code) => m.kind is VideoStreamOutput && m.detail is Some
                && m.detail->0@ == signed(code as int),
            DesktopFailure::AudioOutput(code) => m.kind is AudioStreamOutput && m.detail is Some
                && m.detail->0@ == signed(code as int),
            DesktopFailure::Start => m.kind is CaptureStart && m.detail is None,
        }),
{
}

/// A capture that stopped, vanished or never came says so: a stream that
/// stopped has failed, and a device that is not there is waited for.
pub proof fn law_a_lost_capture_says_so(
    code: i64,
    stopped: CaptureState,
    gone: CaptureState,
    waiting: CaptureState,
    alive: bool,
    format: &str,
    monitor: MonitorState,
)
    requires
        call_ensures(stream_stopped, (code,), stopped),
        call_ensures(device_notification, (), gone),
        call_ensures(waiting_for_device, (), waiting),
        call_ensures(monitor_state, (alive, format), monitor),
    ensures
        stopped matches CaptureState::Failed(m) && m.kind is StreamStopped && m.detail is Some
            && m.detail->0@ == signed(code as int),
        gone matches CaptureState::Retrying(m) && m.kind is DeviceDisconnected,
        waiting matches CaptureState::Retrying(m) && m.kind is WaitingForDevice,
        alive ==> (monitor matches MonitorState::Playing { format: f } && f@ == format@),
        !alive ==> (monitor matches MonitorState::Reconnecting(m) && m.kind is DeviceDisconnected),
{
}

/// The calls that open a device come in one order: it is found before a unit
/// is made, set before its format is read, and started last.
pub proof fn law_a_device_is_opened_in_order(call: UnitCall, r: Option<UnitCall>)
    requires
        call_ensures(UnitCall::next, (call,), r),
    ensures
        match call {
            UnitCall::FindDevice => r == Some(UnitCall::FindComponent),
            UnitCall::FindComponent => r == Some(UnitCall::NewInstance),
            UnitCall::NewInstance => r == Some(UnitCall::EnableInput),
            UnitCall::EnableInput => r == Some(UnitCall::DisableOutput),
            UnitCall::DisableOutput => r == Some(UnitCall::SetDevice),
            UnitCall::SetDevice => r == Some(UnitCall::GetInputFormat),
            UnitCall::GetInputFormat => r == Some(UnitCall::GetOutputFormat),
            UnitCall::GetOutputFormat => r == Some(UnitCall::SetOutputFormat),
            UnitCall::SetOutputFormat => r == Some(UnitCall::CheckFormat),
            UnitCall::CheckFormat => r == Some(UnitCall::GetFrameSize),
            UnitCall::GetFrameSize => r == Some(UnitCall::GetStreamFormat),
            UnitCall::GetStreamFormat => r == Some(UnitCall::GetSampleRate),
            UnitCall::GetSampleRate => r == Some(UnitCall::WatchAlive),
            UnitCall::WatchAlive => r == Some(UnitCall::WatchFormats),
            UnitCall::WatchFormats => r == Some(UnitCall::SetCallback),
            UnitCall::SetCallback => r == Some(UnitCall::Initialize),
            UnitCall::Initialize => r == Some(UnitCall::Start),
            UnitCall::Start => r is None,
        },
{
}

/// A device that is closed is opened from the first call on, and one that is
/// open is left alone. Each call that goes well leads to the next, the last one
/// to a device that is open and runs; one that fails changes nothing of what
/// there is.
pub proof fn law_opening_a_device_goes_step_by_step(
    data: &mut CoreAudioData,
    first: InitStep,
    call: UnitCall,
    ok: bool,
    r: InitStep,
    next: Option<UnitCall>,
)
    requires
        call_ensures(CoreAudioData::init, (old(data),), first),
        call_ensures(CoreAudioData::returned, (data, call, ok), r),
        call_ensures(UnitCall::next, (call,), next),
    ensures
        old(data).au_initialized ==> first == (InitStep::Ready { opened: false }),
        !old(data).au_initialized ==> first == InitStep::Call(UnitCall::FindDevice),
        !ok ==> r is Failed && *final(data) == *old(data),
        ok ==> match next {
            Some(following) => r matches InitStep::Call(c) && c == following,
            None => r == (InitStep::Ready { opened: true }) && final(data).active,
        },
        final(data).spec == old(data).spec,
        ok && call == UnitCall::NewInstance ==> final(data).au_initialized,
        ok && call == UnitCall::GetSampleRate ==> final(data).buffers,
        final(data).active <==> old(data).active || (ok && call == UnitCall::Start),
        final(data).buffers <==> old(data).buffers || (ok && call == UnitCall::GetSampleRate),
        final(data).au_initialized <==> old(data).au_initialized || (ok && call
            == UnitCall::NewInstance),
{
}

/// Closing a device undoes what opening it did, and no more: a unit that runs
/// is stopped first, one that exists is disposed of, and its buffers are freed
/// last. Nothing is left, and the device can be opened again.
pub proof fn law_closing_a_device_undoes_its_opening(
    data: &mut CoreAudioData,
    calls: Vec<Teardown>,
    after: &CoreAudioData,
    again: InitStep,
    state: &CaptureState,
    turn: Reconnect,
)
    requires
        old(data).wf(),
        call_ensures(CoreAudioData::uninit, (data,), calls),
        *after == *final(data),
        call_ensures(CoreAudioData::init, (after,), again),
        call_ensures(CoreAudioData::reconnect, (after, state), turn),
    ensures
        !final(data).au_initialized && !final(data).active && !final(data).buffers,
        final(data).spec == old(data).spec,
        again == InitStep::Call(UnitCall::FindDevice),
        turn.open,
        !old(data).au_initialized ==> calls@.len() == 0,
        old(data).active ==> calls@[0] == Teardown::Stop,
        calls@.contains(Teardown::Stop) <==> old(data).active,
        calls@.contains(Teardown::Uninitialize) <==> old(data).au_initialized,
        calls@.contains(Teardown::RemoveHooks) <==> old(data).au_initialized,
        calls@.contains(Teardown::Dispose) <==> old(data).au_initialized,
        calls@.contains(Teardown::FreeBuffers) <==> old(data).buffers,
        old(data).buffers ==> calls@.last() == Teardown::FreeBuffers,
        calls@.no_duplicates(),
{
    let skip = if old(data).active {
        1int
    } else {
        0
    };
    if old(data).au_initialized {
        assert(calls@[skip] == Teardown::Uninitialize);
        assert(calls@[skip + 1] == Teardown::RemoveHooks);
        assert(calls@[skip + 2] == Teardown::Dispose);
        if old(data).active {
            assert(calls@[0] == Teardown::Stop);
        }
        if old(data).buffers {
            assert(calls@[skip + 3] == Teardown::FreeBuffers);
        }
    }
}

/// A turn of the reconnect thread closes a device that was lost and opens it
/// again, opens one that is closed, and leaves one that runs alone. A turn
/// comes every two seconds.
pub proof fn law_a_lost_device_is_opened_again(
    data: &CoreAudioData,
    state: &CaptureState,
    turn: Reconnect,
)
    requires
        call_ensures(CoreAudioData::reconnect, (data, state), turn),
    ensures
        *state is Retrying ==> turn.close && turn.open,
        !data.au_initialized ==> turn.open,
        !(*state is Retrying) ==> !turn.close,
        !(*state is Retrying) && data.au_initialized ==> !turn.open,
        RECONNECT_POLL_MS * RECONNECT_POLLS == 2_000,
{
}

/// What a unit hands out is taken as it is: at its rate, with its channels and
/// in samples of its width; what is not taken changes nothing. An open device
/// shows its own rate and channels.
pub proof fn law_an_input_keeps_its_format(
    data: &mut CoreAudioData,
    format_id: u32,
    flags: u32,
    bits: u32,
    rate: u32,
    channels: u32,
    ok: bool,
    taken: Option<SampleFormat>,
    after: &CoreAudioData,
    shown: CaptureState,
)
    requires
        call_ensures(
            CoreAudioData::init_format,
            (data, format_id, flags, bits, rate, channels),
            ok,
        ),
        call_ensures(convert_ca_format, (flags, bits), taken),
        *after == *final(data),
        call_ensures(CoreAudioData::opened, (after,), shown),
    ensures
        ok <==> format_id == 0x6C70_636D && taken is Some,
        !ok ==> *final(data) == *old(data),
        ok ==> {
            &&& final(data).spec.rate == rate
            &&& final(data).spec.format == taken->0
            &&& (1 <= channels <= 6 || channels == 8) ==> final(data).spec.speakers.channel_count()
                == channels
            &&& channels > 8 ==> final(data).spec.speakers.channel_count() == 8
            &&& shown matches CaptureState::Active { format } && format@ == description(
                rate as nat,
                final(data).spec.speakers.channel_count(),
            )
        },
        final(data).au_initialized == old(data).au_initialized,
        final(data).active == old(data).active,
        final(data).buffers == old(data).buffers,
{
}

/// A new device is closed.
pub proof fn law_a_new_device_is_closed(data: CoreAudioData)
    requires
        call_ensures(CoreAudioData::new, (), data),
    ensures
        !data.au_initialized && !data.active && !data.buffers,
{
}

/// The buffers of a unit hold what it renders: each the frames of a channel in
/// whichever format, one for each channel, and their list fits in its words.
pub proof fn law_rendered_audio_fits(
    frames: u32,
    channels: u32,
    header: usize,
    entry: usize,
    r: RenderBuffers,
    format: SampleFormat,
    rendered: u32,
    length: usize,
    bytes: usize,
)
    requires
        call_ensures(init_buffer, (frames, channels, header, entry), r),
        call_ensures(rendered_bytes, (rendered, format, length), bytes),
    ensures
        r.count == channels,
        r.bytes >= frames * format.sample_bytes(),
        r.list_words * 8 >= header + entry * channels,
        r.list_words * 8 >= header + entry,
        channels > 0 ==> r.list_words * 8 < header + entry * channels + 8,
        bytes <= length,
        bytes <= rendered * format.sample_bytes(),
        bytes == length || bytes == rendered * format.sample_bytes(),
{
    assert(frames * format.sample_bytes() <= frames * 4) by (nonlinear_arith)
        requires
            format.sample_bytes() <= 4,
    ;
    assert(entry * 1 == entry) by (nonlinear_arith);
    if channels > 0 {
        assert(entry * channels >= entry) by (nonlinear_arith)
            requires
                channels > 0,
        ;
    } else {
        assert(entry * channels == 0) by (nonlinear_arith)
            requires
                channels == 0,
        ;
    }
}

/// Of the channels of an input as many are asked for as can be, and of the
/// buffers as many are handed on as are handled.
pub proof fn law_channels_are_kept_up_to_their_bounds(
    input: u32,
    asked: u32,
    buffers: usize,
    planes: usize,
)
    requires
        call_ensures(asked_channels, (input,), asked),
        call_ensures(rendered_planes, (buffers,), planes),
    ensures
        asked <= input && asked <= 64,
        asked == input || asked == 64,
        planes <= buffers && planes <= 8,
        planes == buffers || planes == 8,
{
}

/// An audio queue plays the common format, 48 kHz stereo floats, in buffers of
/// 30 ms; up to 400 ms wait.
pub proof fn law_a_queue_plays_the_common_format(q: QueueFormat)
    requires
        call_ensures(queue_format, (), q),
    ensures
        q.rate == 48_000 && q.channels == 2 && q.bits == 32,
        q.bytes_per_frame * 8 == q.channels * q.bits,
        q.buffer_size * 1_000 == q.rate * q.bytes_per_frame * 30,
        q.max_backlog * 1_000 == q.rate * q.bytes_per_frame * 400,
        q.flags % 2 == 1,
        q.flags / 32 % 2 == 0,
        q.frames_per_packet == 1,
{
}

/// The buffers that are filled, in order.
pub open spec fn buffers_of(fills: Seq<Fill>) -> Seq<usize> {
    fills.map(|i: int, f: Fill| f.buffer)
}

proof fn lemma_fills(v: QueueView, fills: Seq<Fill>)
    requires
        v.size > 0,
        v.are_fills(fills, v.filled()),
    ensures
        concatenated(fills) == v.data.take((fills.len() * v.size) as int),
        fills.len() * v.size <= v.data.len(),
        v.after_filling().data == v.data.skip((fills.len() * v.size) as int),
        v.empty == buffers_of(fills) + v.after_filling().empty,
        forall|i: int| 0 <= i < fills.len() ==> (#[trigger] fills[i]).bytes@.len() == v.size,
        v.after_filling().data.len() < v.size || v.after_filling().empty.len() == 0,
{
    lemma_whole_buffers(v.data.len(), v.size);
    lemma_concatenated(v, fills, v.filled());
    lemma_filling(v);
    assert(fills.take(v.filled()) =~= fills);
    assert(v.empty =~= buffers_of(fills) + v.after_filling().empty);
    assert forall|i: int| 0 <= i < fills.len() implies (#[trigger] fills[i]).bytes@.len()
        == v.size by {
        assert((i + 1) * v.size <= v.data.len());
        assert((i + 1) * v.size == i * v.size + v.size) by (nonlinear_arith);
        assert(i * v.size >= 0) by (nonlinear_arith)
            requires
                i >= 0,
        ;
    }
}

/// Audio that comes in waits until there is enough of it. Then as many buffers
/// as can be are filled with it, in the order in which it came, and a queue that
/// had paused starts. Only what is over the cap is lost, the oldest first.
pub proof fn law_audio_that_comes_in_is_played(
    queue: &mut QueueState,
    bytes: &Vec<u8>,
    orders: QueueOrders,
)
    requires
        old(queue).wf(),
        call_ensures(QueueState::on_audio, (queue, bytes), orders),
    ensures
        ({
            let all = old(queue)@.data + bytes@;
            let played = concatenated(orders.fills@);
            let before = old(queue)@;
            let after = final(queue)@;
            &&& played + all.subrange(
                played.len() as int,
                played.len() + orders.dropped,
            ) + after.data == all
            &&& played.len() == orders.fills@.len() * before.size
            &&& before.empty == buffers_of(orders.fills@) + after.empty
            &&& after.data.len() <= before.cap
            &&& orders.dropped > 0 ==> after.data.len() == before.cap
            &&& !orders.pause
            &&& all.len() < before.wait ==> {
                &&& orders.fills@.len() == 0 && !orders.start
                &&& after.paused == before.paused && after.wait == before.wait
            }
            &&& all.len() >= before.wait ==> {
                &&& after.data.len() < before.size || after.empty.len() == 0
                &&& orders.start <==> before.paused
                &&& !after.paused && after.wait == 0
            }
            &&& after.size == before.size && after.cap == before.cap
        }),
{
    let before = old(queue)@;
    let all = QueueView { data: before.data + bytes@, ..before };
    let fed = before.fed(bytes@);
    let played = concatenated(orders.fills@);
    let gone = fed.overdue();
    if all.data.len() >= all.wait {
        lemma_fills(all, orders.fills@);
        let n = (orders.fills@.len() * all.size) as int;
        assert(n >= 0) by (nonlinear_arith)
            requires
                n == orders.fills@.len() * all.size,
        ;
        assert(played + all.data.subrange(n, n + gone) + fed.data.skip(gone) =~= all.data);
    } else {
        assert(orders.fills@ =~= seq![]);
        assert(0 * before.size == 0);
        assert(played =~= seq![]);
        assert(buffers_of(orders.fills@) + before.empty =~= before.empty);
        assert(all.data.subrange(0, gone) + fed.data.skip(gone) =~= all.data);
        assert(played + all.data.subrange(0, gone) =~= all.data.subrange(0, gone));
    }
}

/// A buffer that comes back is filled again where there is audio for it. With
/// every buffer empty the queue pauses, until three buffers of audio wait;
/// else it goes on as it did. Nothing is lost.
pub proof fn law_a_buffer_that_comes_back_is_filled(
    queue: &mut QueueState,
    buffer: usize,
    orders: QueueOrders,
)
    requires
        old(queue).wf(),
        call_ensures(QueueState::buffer_audio, (queue, buffer), orders),
    ensures
        ({
            let before = old(queue)@;
            let after = final(queue)@;
            &&& concatenated(orders.fills@) + after.data == before.data
            &&& before.empty.push(buffer) == buffers_of(orders.fills@) + after.empty
            &&& after.data.len() < before.size || after.empty.len() == 0
            &&& orders.pause <==> after.empty.len() == 3
            &&& orders.pause ==> after.paused && after.wait == before.size * 3
            &&& !orders.pause ==> after.paused == before.paused && after.wait == before.wait
            &&& !orders.start && orders.dropped == 0
            &&& after.size == before.size && after.cap == before.cap
        }),
{
    let all = QueueView { empty: old(queue)@.empty.push(buffer), ..old(queue)@ };
    lemma_fills(all, orders.fills@);
    let n = (orders.fills@.len() * all.size) as int;
    assert(n >= 0) by (nonlinear_arith)
        requires
            n == orders.fills@.len() * all.size,
    ;
    assert(all.data.take(n) + all.data.skip(n) =~= all.data);
}

/// A new queue has three empty buffers and plays nothing until 90 ms of audio
/// have come in: three buffers of it.
pub proof fn law_a_new_queue_is_filled_before_it_plays(
    format: QueueFormat,
    queue: QueueState,
    feeding: &mut QueueState,
    bytes: &Vec<u8>,
    orders: QueueOrders,
)
    requires
        call_ensures(queue_format, (), format),
        call_ensures(QueueState::new, (format.buffer_size, format.max_backlog), queue),
        *old(feeding) == queue,
        call_ensures(QueueState::on_audio, (feeding, bytes), orders),
    ensures
        queue@.empty.no_duplicates() && queue@.empty.len() == 3,
        bytes@.len() * 1_000 < format.rate * format.bytes_per_frame * 90
            ==> orders.fills@.len() == 0,
        bytes@.len() * 1_000 >= format.rate * format.bytes_per_frame * 90
            ==> orders.fills@.len() == 3,
{
    let all = QueueView { data: queue@.data + bytes@, ..queue@ };
    lemma_whole_buffers(all.data.len(), all.size);
    if bytes@.len() >= 34_560 {
        assert(all.data.len() / all.size >= 3) by (nonlinear_arith)
            requires
                all.size == 11_520,
                all.data.len() >= 34_560,
        ;
    }
}

/// One buffer is filled exactly where one is empty and there is audio for it:
/// the first empty one with the first audio.
pub proof fn law_a_buffer_is_filled_with_the_oldest_audio(
    queue: &mut QueueState,
    r: Option<Fill>,
)
    requires
        old(queue).wf(),
        call_ensures(QueueState::fill_buffer, (queue,), r),
    ensures
        r is Some <==> old(queue)@.empty.len() > 0 && old(queue)@.data.len() >= old(queue)@.size,
        r matches Some(fill) ==> {
            &&& fill.bytes@ + final(queue)@.data == old(queue)@.data
            &&& fill.bytes@.len() == old(queue)@.size
            &&& seq![fill.buffer] + final(queue)@.empty == old(queue)@.empty
            &&& final(queue)@.paused == old(queue)@.paused
            &&& final(queue)@.wait == old(queue)@.wait
        },
        r is None ==> final(queue)@ == old(queue)@,
{
    let v = old(queue)@;
    lemma_whole_buffers(v.data.len(), v.size);
    if let Some(fill) = r {
        let n = v.size as int;
        assert(v.data.take(n) + v.data.skip(n) =~= v.data);
        assert(seq![fill.buffer] + v.empty.skip(1) =~= v.empty);
    }
}

/// A queue is set up in order: it is made for the format, put on its device,
/// turned up, given three buffers and started. The first call that fails ends
/// it and is named.
pub proof fn law_a_queue_is_set_up_in_order(
    call: QueueCall,
    ok: bool,
    allocated: usize,
    r: QueueStep,
)
    requires
        call_ensures(QueueCall::returned, (call, ok, allocated), r),
    ensures
        r is Running <==> ok && call is Start,
        r is Failed <==> !ok,
        ok ==> match call {
            QueueCall::Resampler => r == QueueStep::Call(QueueCall::NewOutput),
            QueueCall::NewOutput => r == QueueStep::Call(QueueCall::SetDevice),
            QueueCall::SetDevice => r == QueueStep::Call(QueueCall::SetVolume),
            QueueCall::SetVolume => r == QueueStep::Call(QueueCall::AllocateBuffer),
            QueueCall::AllocateBuffer => r == QueueStep::Call(
                if allocated < 3 {
                    QueueCall::AllocateBuffer
                } else {
                    QueueCall::Start
                },
            ),
            QueueCall::Start => r is Running,
        },
        r matches QueueStep::Failed(m) ==> m.detail is None && match call {
            QueueCall::Resampler => m.kind is Resampler,
            QueueCall::NewOutput => m.kind is QueueCreate,
            QueueCall::SetDevice => m.kind is OutputUnavailable,
            QueueCall::SetVolume => m.kind is QueueVolume,
            QueueCall::AllocateBuffer => m.kind is QueueBuffers,
            QueueCall::Start => m.kind is QueueStart,
        },
{
}

} // verus!
