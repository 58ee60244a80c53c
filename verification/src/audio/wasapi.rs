//! Windows backend: what is captured and monitored, and how.
//!
//! - Capture: one thread, event driven, with 10 ms wake-ups for loopback;
//!   silent packets replaced by zeros; a silent render buffer before loopback
//!   starts; a 3 s reconnect interval; an immediate restart when the default
//!   output changes.
//! - Monitoring: each packet is resampled and written straight away; a packet
//!   the device has no room for is skipped, and any failure drops the client,
//!   which is reopened on the next packet.

use crate::audio::format::{AudioSpec, SampleFormat, Speakers};
use crate::audio::message::{Kind, Message};
use crate::audio::tally::Tally;
use crate::audio::{
    CaptureState, DeviceList, MonitorState, OutputInfo, SourceInfo, SourceKind, SystemEvent,
    DESKTOP, DESKTOP_NAME,
};
use crate::text::{hexadecimal, hexadecimal_text, same, strip_prefix};
use crate::text;
use vstd::prelude::*;

verus! {

pub const OUTPUT_PREFIX: &'static str = "output:";

pub const INPUT_PREFIX: &'static str = "input:";

/// Buffer of a capture: 5 seconds.
pub const CAPTURE_BUFFER_100NS: i64 = 50_000_000;

/// Buffer of a monitor: 1 second.
pub const MONITOR_BUFFER_100NS: i64 = 10_000_000;

pub const RECONNECT_INTERVAL_MS: u32 = 3000;

/// Loopback does not always wake up on its own.
pub const LOOPBACK_WAKE_MS: u32 = 10;

/// Front left and right.
pub const KSAUDIO_SPEAKER_STEREO: u32 = 0x3;

/// Stereo and low frequency.
pub const KSAUDIO_SPEAKER_2POINT1: u32 = 0xb;

/// Stereo, front center and back center.
pub const KSAUDIO_SPEAKER_SURROUND: u32 = 0x107;

/// Surround and low frequency.
pub const OBS_KSAUDIO_SPEAKER_4POINT1: u32 = 0x10f;

/// Stereo, front center, low frequency, back left and right.
pub const KSAUDIO_SPEAKER_5POINT1: u32 = 0x3f;

/// Stereo, front center, low frequency, side left and right.
pub const KSAUDIO_SPEAKER_5POINT1_SURROUND: u32 = 0x60f;

/// 5.1 with front left and right of center.
pub const KSAUDIO_SPEAKER_7POINT1: u32 = 0xff;

/// 5.1 surround with back left and right.
pub const KSAUDIO_SPEAKER_7POINT1_SURROUND: u32 = 0x63f;

/// The tag of a wave format that has a channel mask.
pub const WAVE_FORMAT_EXTENSIBLE: u16 = 0xFFFE;

/// What a source id stands for.
#[derive(Debug, PartialEq, Eq)]
pub enum SourceType {
    /// The default output, recorded in loopback.
    DefaultOutput,
    DeviceOutput(String),
    Input(String),
}

impl Clone for SourceType {
    fn clone(&self) -> (r: Self)
        ensures
            r == *self,
    {
        match self {
            SourceType::DefaultOutput => SourceType::DefaultOutput,
            SourceType::DeviceOutput(id) => SourceType::DeviceOutput(id.clone()),
            SourceType::Input(id) => SourceType::Input(id.clone()),
        }
    }
}

impl SourceType {
    /// Whether `r` is what a source id stands for.
    pub open spec fn parsed(r: Result<SourceType, Message>, source: Seq<char>) -> bool {
        if source == DESKTOP@ {
            r == Ok::<SourceType, Message>(SourceType::DefaultOutput)
        } else if text::occurs_at(source, OUTPUT_PREFIX@, 0) {
            r matches Ok(SourceType::DeviceOutput(id)) && source == OUTPUT_PREFIX@ + id@
        } else if text::occurs_at(source, INPUT_PREFIX@, 0) {
            r matches Ok(SourceType::Input(id)) && source == INPUT_PREFIX@ + id@
        } else {
            r matches Err(e) && Kind::UnknownSource.detailed(e, source)
        }
    }

    pub fn parse(source: &str) -> (r: Result<SourceType, Message>)
        ensures
            Self::parsed(r, source@),
    {
        if same(source, DESKTOP) {
            Ok(SourceType::DefaultOutput)
        } else {
            match strip_prefix(source, OUTPUT_PREFIX) {
                Some(id) => Ok(SourceType::DeviceOutput(id)),
                None => match strip_prefix(source, INPUT_PREFIX) {
                    Some(id) => Ok(SourceType::Input(id)),
                    None => Err(Kind::UnknownSource.detail(source)),
                },
            }
        }
    }

    pub fn is_input(&self) -> (r: bool)
        ensures
            r == (self is Input),
    {
        match self {
            SourceType::Input(_) => true,
            _ => false,
        }
    }
}

/// The output a source id records: nothing that it names may be played on.
pub open spec fn recorded(source: Seq<char>, default_output: Option<String>, id: Seq<char>) -> bool {
    if source == DESKTOP@ {
        default_output matches Some(d) && d@ == id
    } else {
        text::occurs_at(source, OUTPUT_PREFIX@, 0) && source == OUTPUT_PREFIX@ + id
    }
}

/// Output device a source records, `default_output` being the default one.
pub fn captured_output(source: &str, default_output: &Option<String>) -> (r: Option<String>)
    ensures
        r matches Some(out) ==> recorded(source@, *default_output, out@),
        r is None ==> forall|id: Seq<char>| !#[trigger] recorded(source@, *default_output, id),
        r is None <==> if source@ == DESKTOP@ {
            *default_output is None
        } else {
            !text::occurs_at(source@, OUTPUT_PREFIX@, 0)
        },
{
    let parsed = SourceType::parse(source);
    match parsed {
        Ok(SourceType::DefaultOutput) => match default_output {
            Some(id) => Some(id.clone()),
            None => None,
        },
        Ok(SourceType::DeviceOutput(id)) => Some(id),
        _ => None,
    }
}

/// Whether a monitor on a device would play what the source records there.
pub fn is_self_monitor(source: &str, default_output: &Option<String>, device: &str) -> (r: bool)
    ensures
        r == recorded(source@, *default_output, device@),
{
    match captured_output(source, default_output) {
        Some(out) => {
            let r = same(out.as_str(), device);
            proof {
                if source@ != DESKTOP@ && recorded(source@, *default_output, device@) {
                    let n = OUTPUT_PREFIX@.len() as int;
                    assert(out@ =~= source@.skip(n));
                    assert(device@ =~= source@.skip(n));
                }
            }
            r
        },
        None => false,
    }
}

/// A source id made of a prefix and a device id stands for that device.
pub proof fn law_ids_lead_to_their_device(r: Result<SourceType, Message>, id: String)
    ensures
        SourceType::parsed(r, OUTPUT_PREFIX@ + id@) ==> (r matches Ok(SourceType::DeviceOutput(d))
            && d@ == id@),
        SourceType::parsed(r, INPUT_PREFIX@ + id@) ==> (r matches Ok(SourceType::Input(d)) && d@
            == id@),
{
    reveal_strlit("output:");
    reveal_strlit("input:");
    reveal_strlit("desktop");
    let output = OUTPUT_PREFIX@ + id@;
    let input = INPUT_PREFIX@ + id@;
    assert(output[0] == 'o' && input[0] == 'i' && DESKTOP@[0] == 'd');
    assert(output.subrange(0, 7) =~= OUTPUT_PREFIX@);
    assert(input.subrange(0, 6) =~= INPUT_PREFIX@);
    if text::occurs_at(input, OUTPUT_PREFIX@, 0) {
        assert(input.subrange(0, 7)[0] == OUTPUT_PREFIX@[0]);
    }
    assert forall|d: Seq<char>| output == #[trigger] (OUTPUT_PREFIX@ + d) implies d == id@ by {
        assert(d =~= output.skip(7));
        assert(id@ =~= output.skip(7));
    }
    assert forall|d: Seq<char>| input == #[trigger] (INPUT_PREFIX@ + d) implies d == id@ by {
        assert(d =~= input.skip(6));
        assert(id@ =~= input.skip(6));
    }
}

/// The layout of a capture: that of its channel mask, else of its channel
/// count.
pub open spec fn capture_layout(mask: u32, channels: int) -> Speakers {
    if mask == KSAUDIO_SPEAKER_2POINT1 {
        Speakers::TwoPointOne
    } else if mask == KSAUDIO_SPEAKER_SURROUND {
        Speakers::FourPointZero
    } else if mask == OBS_KSAUDIO_SPEAKER_4POINT1 {
        Speakers::FourPointOne
    } else if mask == KSAUDIO_SPEAKER_5POINT1_SURROUND {
        Speakers::FivePointOne
    } else if mask == KSAUDIO_SPEAKER_7POINT1_SURROUND {
        Speakers::SevenPointOne
    } else {
        Speakers::of_count(channels)
    }
}

/// The layout of a monitor: that of its channel mask, else of its channel
/// count.
pub open spec fn monitor_layout(mask: u32, channels: int) -> Speakers {
    if mask == KSAUDIO_SPEAKER_2POINT1 {
        Speakers::TwoPointOne
    } else if mask == KSAUDIO_SPEAKER_SURROUND {
        Speakers::FourPointZero
    } else if mask == OBS_KSAUDIO_SPEAKER_4POINT1 {
        Speakers::FourPointOne
    } else if mask == KSAUDIO_SPEAKER_5POINT1 {
        Speakers::FivePointOne
    } else if mask == KSAUDIO_SPEAKER_7POINT1 {
        Speakers::SevenPointOne
    } else {
        Speakers::of_count(channels)
    }
}

pub fn capture_speakers(mask: u32, channels: usize) -> (r: Speakers)
    ensures
        r == capture_layout(mask, channels as int),
{
    if mask == KSAUDIO_SPEAKER_2POINT1 {
        Speakers::TwoPointOne
    } else if mask == KSAUDIO_SPEAKER_SURROUND {
        Speakers::FourPointZero
    } else if mask == OBS_KSAUDIO_SPEAKER_4POINT1 {
        Speakers::FourPointOne
    } else if mask == KSAUDIO_SPEAKER_5POINT1_SURROUND {
        Speakers::FivePointOne
    } else if mask == KSAUDIO_SPEAKER_7POINT1_SURROUND {
        Speakers::SevenPointOne
    } else {
        Speakers::from_channels(channels)
    }
}

pub fn monitor_speakers(mask: u32, channels: usize) -> (r: Speakers)
    ensures
        r == monitor_layout(mask, channels as int),
{
    if mask == KSAUDIO_SPEAKER_2POINT1 {
        Speakers::TwoPointOne
    } else if mask == KSAUDIO_SPEAKER_SURROUND {
        Speakers::FourPointZero
    } else if mask == OBS_KSAUDIO_SPEAKER_4POINT1 {
        Speakers::FourPointOne
    } else if mask == KSAUDIO_SPEAKER_5POINT1 {
        Speakers::FivePointOne
    } else if mask == KSAUDIO_SPEAKER_7POINT1 {
        Speakers::SevenPointOne
    } else {
        Speakers::from_channels(channels)
    }
}

/// What a wave format says, its extension read only where its tag promises
/// one.
#[derive(Debug, Clone, Copy, PartialEq, Eq, Structural)]
pub struct WaveFormat {
    pub tag: u16,
    pub rate: u32,
    pub channels: u16,
    /// The channel mask of the extension.
    pub mask: u32,
    /// Bytes of one frame.
    pub block_align: u16,
}

impl WaveFormat {
    /// The channel mask, none without an extension.
    pub open spec fn mask_of(&self) -> u32 {
        if self.tag == WAVE_FORMAT_EXTENSIBLE {
            self.mask
        } else {
            0
        }
    }

    pub fn channel_mask(&self) -> (r: u32)
        ensures
            r == self.mask_of(),
    {
        if self.tag == WAVE_FORMAT_EXTENSIBLE {
            self.mask
        } else {
            0
        }
    }

    /// What a capture in this format delivers: always float.
    pub fn capture_spec(&self) -> (r: AudioSpec)
        ensures
            r == (AudioSpec {
                rate: self.rate,
                speakers: capture_layout(self.mask_of(), self.channels as int),
                format: SampleFormat::Float,
            }),
    {
        AudioSpec {
            rate: self.rate,
            speakers: capture_speakers(self.channel_mask(), self.channels as usize),
            format: SampleFormat::Float,
        }
    }

    /// What a monitor in this format takes: always float.
    pub fn monitor_spec(&self) -> (r: AudioSpec)
        ensures
            r == (AudioSpec {
                rate: self.rate,
                speakers: monitor_layout(self.mask_of(), self.channels as int),
                format: SampleFormat::Float,
            }),
    {
        AudioSpec {
            rate: self.rate,
            speakers: monitor_speakers(self.channel_mask(), self.channels as usize),
            format: SampleFormat::Float,
        }
    }

    /// The bytes of `frames` frames.
    pub fn frame_bytes(&self, frames: u32) -> (r: u64)
        ensures
            r == frames * self.block_align,
    {
        assert(frames * self.block_align <= u32::MAX * u16::MAX) by (nonlinear_arith)
            requires
                frames <= u32::MAX,
                self.block_align <= u16::MAX,
        ;
        (frames as u64) * (self.block_align as u64)
    }
}

/// A message with the code the system gave, as eight hexadecimal digits.
pub fn hr(context: Kind, code: i32) -> (m: Message)
    ensures
        context.detailed(m, hexadecimal((code as u32) as nat, 8)),
{
    let digits = hexadecimal_text(code as u32, 8);
    context.detail(digits.as_str())
}

/// What the system lists.
#[derive(Debug, PartialEq, Eq)]
pub struct Listing {
    pub default_out: Option<String>,
    pub default_in: Option<String>,
    /// Id and name of each output.
    pub renders: Vec<(String, String)>,
    /// Id and name of each input.
    pub captures: Vec<(String, String)>,
}

/// Whether an id is the default one.
pub open spec fn is_default_id(default: Option<String>, id: Seq<char>) -> bool {
    default matches Some(d) && d@ == id
}

fn is_default(default: &Option<String>, id: &String) -> (r: bool)
    ensures
        r == is_default_id(*default, id@),
{
    match default {
        Some(d) => same(d.as_str(), id.as_str()),
        None => false,
    }
}

/// Whether `s` is the entry of the default output as a source.
pub open spec fn is_desktop(s: SourceInfo, listing: Listing) -> bool {
    &&& s.id@ == DESKTOP@
    &&& s.name@ == DESKTOP_NAME@
    &&& s.kind is Desktop
    &&& !s.is_default
    &&& s.captures_output == listing.default_out
}

/// Whether `s` is the source that records an output.
pub open spec fn is_loopback(s: SourceInfo, device: (String, String), listing: Listing) -> bool {
    &&& s.id@ == OUTPUT_PREFIX@ + device.0@
    &&& s.name == device.1
    &&& s.kind is Loopback
    &&& s.is_default == is_default_id(listing.default_out, device.0@)
    &&& s.captures_output == Some(device.0)
}

/// Whether `s` is the source of an input.
pub open spec fn is_capture(s: SourceInfo, device: (String, String), listing: Listing) -> bool {
    &&& s.id@ == INPUT_PREFIX@ + device.0@
    &&& s.name == device.1
    &&& s.kind is Capture
    &&& s.is_default == is_default_id(listing.default_in, device.0@)
    &&& s.captures_output is None
}

/// Whether `o` is the entry of an output.
pub open spec fn is_output(o: OutputInfo, device: (String, String), listing: Listing) -> bool {
    &&& o.id == device.0
    &&& o.name == device.1
    &&& o.is_default == is_default_id(listing.default_out, device.0@)
}

/// The output that a listed source names as the one it records is kept from
/// playing it.
pub proof fn law_a_recorded_output_is_left_out(
    s: SourceInfo,
    device: (String, String),
    listing: Listing,
)
    requires
        is_desktop(s, listing) || is_loopback(s, device, listing) || is_capture(s, device, listing),
        s.captures_output is Some,
    ensures
        recorded(s.id@, listing.default_out, s.captures_output->0@),
{
    if !is_desktop(s, listing) {
        reveal_strlit("output:");
        reveal_strlit("desktop");
        assert(s.id@.subrange(0, OUTPUT_PREFIX@.len() as int) =~= OUTPUT_PREFIX@);
        assert(s.id@[0] == 'o');
        assert(DESKTOP@[0] == 'd');
    }
}

/// The device list made of what the system lists: the default output, each
/// output as a source, each input; and each output as a destination. An error
/// the system reported is handed on in its own words.
pub fn enumerate(listing: &Result<Listing, String>) -> (r: Result<DeviceList, Message>)
    ensures
        match listing {
            Err(why) => r matches Err(e) && Kind::System.detailed(e, why@),
            Ok(l) => r matches Ok(list) && {
                let n = l.renders@.len();
                &&& list.sources@.len() == 1 + n + l.captures@.len()
                &&& is_desktop(list.sources@[0], *l)
                &&& forall|i: int|
                    0 <= i < n ==> is_loopback(
                        list.sources@[1 + i],
                        #[trigger] l.renders@[i],
                        *l,
                    )
                &&& forall|i: int|
                    0 <= i < l.captures@.len() ==> is_capture(
                        list.sources@[1 + n + i],
                        #[trigger] l.captures@[i],
                        *l,
                    )
                &&& list.outputs@.len() == n
                &&& forall|i: int|
                    0 <= i < n ==> is_output(#[trigger] list.outputs@[i], l.renders@[i], *l)
            },
        },
{
    let l = match listing {
        Ok(l) => l,
        Err(why) => {
            return Err(Kind::System.detail(why.as_str()));
        },
    };
    let mut sources: Vec<SourceInfo> = Vec::new();
    let mut outputs: Vec<OutputInfo> = Vec::new();
    sources.push(
        SourceInfo {
            id: DESKTOP.to_owned(),
            name: DESKTOP_NAME.to_owned(),
            kind: SourceKind::Desktop,
            is_default: false,
            captures_output: match &l.default_out {
                Some(id) => Some(id.clone()),
                None => None,
            },
        },
    );
    let mut i: usize = 0;
    while i < l.renders.len()
        invariant
            i <= l.renders@.len(),
            sources@.len() == 1 + i,
            is_desktop(sources@[0], *l),
            forall|k: int|
                0 <= k < i ==> is_loopback(sources@[1 + k], #[trigger] l.renders@[k], *l),
            outputs@.len() == i,
            forall|k: int| 0 <= k < i ==> is_output(#[trigger] outputs@[k], l.renders@[k], *l),
        decreases l.renders@.len() - i,
    {
        let id = &l.renders[i].0;
        let name = &l.renders[i].1;
        let default = is_default(&l.default_out, id);
        let mut source = OUTPUT_PREFIX.to_owned();
        source.append(id.as_str());
        sources.push(
            SourceInfo {
                id: source,
                name: name.clone(),
                kind: SourceKind::Loopback,
                is_default: default,
                captures_output: Some(id.clone()),
            },
        );
        outputs.push(OutputInfo { id: id.clone(), name: name.clone(), is_default: default });
        i += 1;
    }
    let mut k: usize = 0;
    while k < l.captures.len()
        invariant
            k <= l.captures@.len(),
            sources@.len() == 1 + l.renders@.len() + k,
            is_desktop(sources@[0], *l),
            forall|n: int|
                0 <= n < l.renders@.len() ==> is_loopback(
                    sources@[1 + n],
                    #[trigger] l.renders@[n],
                    *l,
                ),
            forall|n: int|
                0 <= n < k ==> is_capture(
                    sources@[1 + l.renders@.len() + n],
                    #[trigger] l.captures@[n],
                    *l,
                ),
        decreases l.captures@.len() - k,
    {
        let id = &l.captures[k].0;
        let mut source = INPUT_PREFIX.to_owned();
        source.append(id.as_str());
        sources.push(
            SourceInfo {
                id: source,
                name: l.captures[k].1.clone(),
                kind: SourceKind::Capture,
                is_default: is_default(&l.default_in, id),
                captures_output: None,
            },
        );
        k += 1;
    }
    Ok(DeviceList { sources, outputs })
}

/// The calls that open a capture.
#[derive(Debug, Clone, Copy, PartialEq, Eq, Structural)]
pub enum CaptureStep {
    Enumerator,
    /// The default output.
    DefaultEndpoint,
    /// The device of a given id.
    Device,
    Activate,
    MixFormat,
    /// With the loopback flag for an output.
    Initialize,
    // A silent render buffer, without which loopback may never wake up.
    ClearActivate,
    ClearMixFormat,
    ClearInitialize,
    ClearBufferSize,
    ClearRenderClient,
    ClearGetBuffer,
    CaptureClient,
    EventHandle,
    Start,
}

/// The calls that open a capture, in order: an output is cleared first.
pub open spec fn capture_calls(source: SourceType) -> Seq<CaptureStep> {
    let opening = seq![
        CaptureStep::Enumerator,
        if source is DefaultOutput {
            CaptureStep::DefaultEndpoint
        } else {
            CaptureStep::Device
        },
        CaptureStep::Activate,
        CaptureStep::MixFormat,
        CaptureStep::Initialize,
    ];
    let clearing = if source is Input {
        Seq::empty()
    } else {
        seq![
            CaptureStep::ClearActivate,
            CaptureStep::ClearMixFormat,
            CaptureStep::ClearInitialize,
            CaptureStep::ClearBufferSize,
            CaptureStep::ClearRenderClient,
            CaptureStep::ClearGetBuffer,
        ]
    };
    opening + clearing + seq![
        CaptureStep::CaptureClient,
        CaptureStep::EventHandle,
        CaptureStep::Start,
    ]
}

/// The calls that open a capture.
pub fn initialize_capture(source: &SourceType) -> (r: Vec<CaptureStep>)
    ensures
        r@ == capture_calls(*source),
{
    let mut calls: Vec<CaptureStep> = Vec::new();
    calls.push(CaptureStep::Enumerator);
    calls.push(
        match source {
            SourceType::DefaultOutput => CaptureStep::DefaultEndpoint,
            _ => CaptureStep::Device,
        },
    );
    calls.push(CaptureStep::Activate);
    calls.push(CaptureStep::MixFormat);
    calls.push(CaptureStep::Initialize);
    if !source.is_input() {
        calls.push(CaptureStep::ClearActivate);
        calls.push(CaptureStep::ClearMixFormat);
        calls.push(CaptureStep::ClearInitialize);
        calls.push(CaptureStep::ClearBufferSize);
        calls.push(CaptureStep::ClearRenderClient);
        calls.push(CaptureStep::ClearGetBuffer);
    }
    calls.push(CaptureStep::CaptureClient);
    calls.push(CaptureStep::EventHandle);
    calls.push(CaptureStep::Start);
    assert(calls@ =~= capture_calls(*source));
    calls
}

impl CaptureStep {
    /// What the user is told when the call fails.
    pub open spec fn failure(self) -> Kind {
        match self {
            CaptureStep::Enumerator => Kind::WasapiEnumerator,
            CaptureStep::DefaultEndpoint => Kind::WasapiDefaultEndpoint,
            CaptureStep::Device => Kind::WasapiEnumerateDevice,
            CaptureStep::Activate | CaptureStep::ClearActivate => Kind::WasapiActivateClient,
            CaptureStep::MixFormat | CaptureStep::ClearMixFormat => Kind::WasapiMixFormat,
            CaptureStep::Initialize | CaptureStep::ClearInitialize => Kind::WasapiInitialize,
            CaptureStep::ClearBufferSize => Kind::WasapiBufferSize,
            CaptureStep::ClearRenderClient => Kind::WasapiRenderClient,
            CaptureStep::ClearGetBuffer => Kind::WasapiGetBuffer,
            CaptureStep::CaptureClient => Kind::WasapiCaptureClient,
            CaptureStep::EventHandle => Kind::WasapiEventHandle,
            CaptureStep::Start => Kind::WasapiStartCapture,
        }
    }

    /// The message for a call that failed with a system error code.
    pub fn failed(self, code: i32) -> (m: Message)
        ensures
            self.failure().detailed(m, hexadecimal((code as u32) as nat, 8)),
    {
        let kind = match self {
            CaptureStep::Enumerator => Kind::WasapiEnumerator,
            CaptureStep::DefaultEndpoint => Kind::WasapiDefaultEndpoint,
            CaptureStep::Device => Kind::WasapiEnumerateDevice,
            CaptureStep::Activate => Kind::WasapiActivateClient,
            CaptureStep::ClearActivate => Kind::WasapiActivateClient,
            CaptureStep::MixFormat => Kind::WasapiMixFormat,
            CaptureStep::ClearMixFormat => Kind::WasapiMixFormat,
            CaptureStep::Initialize => Kind::WasapiInitialize,
            CaptureStep::ClearInitialize => Kind::WasapiInitialize,
            CaptureStep::ClearBufferSize => Kind::WasapiBufferSize,
            CaptureStep::ClearRenderClient => Kind::WasapiRenderClient,
            CaptureStep::ClearGetBuffer => Kind::WasapiGetBuffer,
            CaptureStep::CaptureClient => Kind::WasapiCaptureClient,
            CaptureStep::EventHandle => Kind::WasapiEventHandle,
            CaptureStep::Start => Kind::WasapiStartCapture,
        };
        hr(kind, code)
    }
}

/// The calls that open a monitor.
#[derive(Debug, Clone, Copy, PartialEq, Eq, Structural)]
pub enum MonitorStep {
    Enumerator,
    Device,
    Activate,
    MixFormat,
    Initialize,
    Resampler,
    BufferSize,
    RenderClient,
    Clock,
    ClockRate,
    Start,
}

/// The calls that open a monitor, in order.
pub open spec fn monitor_calls() -> Seq<MonitorStep> {
    seq![
        MonitorStep::Enumerator,
        MonitorStep::Device,
        MonitorStep::Activate,
        MonitorStep::MixFormat,
        MonitorStep::Initialize,
        MonitorStep::Resampler,
        MonitorStep::BufferSize,
        MonitorStep::RenderClient,
        MonitorStep::Clock,
        MonitorStep::ClockRate,
        MonitorStep::Start,
    ]
}

/// The calls that open a monitor.
pub fn init_monitor_client() -> (r: Vec<MonitorStep>)
    ensures
        r@ == monitor_calls(),
{
    let mut calls: Vec<MonitorStep> = Vec::new();
    calls.push(MonitorStep::Enumerator);
    calls.push(MonitorStep::Device);
    calls.push(MonitorStep::Activate);
    calls.push(MonitorStep::MixFormat);
    calls.push(MonitorStep::Initialize);
    calls.push(MonitorStep::Resampler);
    calls.push(MonitorStep::BufferSize);
    calls.push(MonitorStep::RenderClient);
    calls.push(MonitorStep::Clock);
    calls.push(MonitorStep::ClockRate);
    calls.push(MonitorStep::Start);
    calls
}

impl MonitorStep {
    /// What the user is told when the call fails.
    pub open spec fn failure(self) -> Kind {
        match self {
            MonitorStep::Enumerator => Kind::WasapiMonitorEnumerator,
            MonitorStep::Device => Kind::WasapiGetDevice,
            MonitorStep::Activate => Kind::WasapiActivate,
            MonitorStep::MixFormat => Kind::WasapiMixFormat,
            MonitorStep::Initialize => Kind::WasapiMonitorInitialize,
            MonitorStep::Resampler => Kind::Resampler,
            MonitorStep::BufferSize => Kind::WasapiBufferSize,
            MonitorStep::RenderClient | MonitorStep::Clock | MonitorStep::ClockRate =>
                Kind::WasapiMonitorRenderClient,
            MonitorStep::Start => Kind::WasapiStartRender,
        }
    }

    /// The message for a call that failed: with the system error code, except
    /// for the resampler, which has none.
    pub fn failed(self, code: i32) -> (m: Message)
        ensures
            self is Resampler ==> m == Kind::Resampler.plain(),
            !(self is Resampler) ==> self.failure().detailed(
                m,
                hexadecimal((code as u32) as nat, 8),
            ),
    {
        let kind = match self {
            MonitorStep::Enumerator => Kind::WasapiMonitorEnumerator,
            MonitorStep::Device => Kind::WasapiGetDevice,
            MonitorStep::Activate => Kind::WasapiActivate,
            MonitorStep::MixFormat => Kind::WasapiMixFormat,
            MonitorStep::Initialize => Kind::WasapiMonitorInitialize,
            MonitorStep::Resampler => {
                return Message::from(Kind::Resampler);
            },
            MonitorStep::BufferSize => Kind::WasapiBufferSize,
            MonitorStep::RenderClient => Kind::WasapiMonitorRenderClient,
            MonitorStep::Clock => Kind::WasapiMonitorRenderClient,
            MonitorStep::ClockRate => Kind::WasapiMonitorRenderClient,
            MonitorStep::Start => Kind::WasapiStartRender,
        };
        hr(kind, code)
    }
}

/// What ended a wait.
#[derive(Debug, Clone, Copy, PartialEq, Eq, Structural)]
pub enum Signal {
    Stop,
    /// The device has something.
    Receive,
    /// The default output changed.
    Restart,
    Timeout,
}

/// What happened to the capture thread.
#[derive(Debug, PartialEq, Eq)]
pub enum ThreadEvent {
    Begin,
    /// The device was opened, in that format, or could not be.
    Initialized(Result<String, Message>),
    /// The wait for the device is over.
    Signalled(Signal),
    /// The packets were read, or the device is gone.
    Processed(bool),
    /// The wait before reconnecting is over.
    Waited(Signal),
}

/// What the capture thread does next.
#[derive(Debug, Clone, Copy, PartialEq, Eq, Structural)]
pub enum ThreadAction {
    Initialize,
    /// Wait for the device, at most that long.
    Wait { wake_ms: Option<u32> },
    Process,
    /// Wait for that long before reconnecting.
    WaitToReconnect { ms: u32 },
    Finish,
}

/// One step of the capture thread.
#[derive(Debug, PartialEq, Eq)]
pub struct ThreadStep {
    /// The state to report from now on.
    pub state: Option<CaptureState>,
    /// Whether the restart signal has been taken note of.
    pub reset_restart: bool,
    /// Whether a failure is worth a line in the log: only the first one is.
    pub warn: bool,
    pub action: ThreadAction,
}

/// The capture thread.
#[derive(Debug, Clone, Copy, PartialEq, Eq, Structural)]
pub struct CaptureThread {
    /// Whether it records an input rather than an output.
    pub input: bool,
    /// Whether the device could not be opened the last time.
    pub previously_failed: bool,
}

impl CaptureThread {
    /// The wait for the device: an input wakes up on its own.
    pub open spec fn waiting(self) -> ThreadAction {
        ThreadAction::Wait {
            wake_ms: if self.input {
                None
            } else {
                Some(LOOPBACK_WAKE_MS)
            },
        }
    }

    /// What an event leads to.
    pub open spec fn step_of(self, event: ThreadEvent) -> ThreadStep {
        let quiet = ThreadStep {
            state: None,
            reset_restart: false,
            warn: false,
            action: ThreadAction::Initialize,
        };
        match event {
            ThreadEvent::Begin => quiet,
            ThreadEvent::Initialized(Ok(format)) => ThreadStep {
                state: Some(CaptureState::Active { format }),
                action: self.waiting(),
                ..quiet
            },
            ThreadEvent::Initialized(Err(why)) => ThreadStep {
                state: Some(CaptureState::Retrying(why)),
                warn: !self.previously_failed,
                action: ThreadAction::WaitToReconnect { ms: RECONNECT_INTERVAL_MS },
                ..quiet
            },
            ThreadEvent::Signalled(Signal::Stop) => ThreadStep {
                action: ThreadAction::Finish,
                ..quiet
            },
            ThreadEvent::Signalled(Signal::Receive) | ThreadEvent::Signalled(
                Signal::Timeout,
            ) => ThreadStep { action: ThreadAction::Process, ..quiet },
            ThreadEvent::Signalled(Signal::Restart) => ThreadStep {
                state: Some(CaptureState::Starting),
                reset_restart: true,
                ..quiet
            },
            ThreadEvent::Processed(true) => ThreadStep { action: self.waiting(), ..quiet },
            ThreadEvent::Processed(false) => ThreadStep {
                state: Some(CaptureState::Retrying(Kind::DeviceDisconnected.plain())),
                action: ThreadAction::WaitToReconnect { ms: RECONNECT_INTERVAL_MS },
                ..quiet
            },
            ThreadEvent::Waited(Signal::Stop) => ThreadStep {
                action: ThreadAction::Finish,
                ..quiet
            },
            ThreadEvent::Waited(Signal::Restart) => ThreadStep { reset_restart: true, ..quiet },
            ThreadEvent::Waited(_) => quiet,
        }
    }

    pub fn new(input: bool) -> (t: Self)
        ensures
            t.input == input,
            !t.previously_failed,
    {
        CaptureThread { input, previously_failed: false }
    }

    fn wait(&self) -> (r: ThreadAction)
        ensures
            r == self.waiting(),
    {
        ThreadAction::Wait {
            wake_ms: if self.input {
                None
            } else {
                Some(LOOPBACK_WAKE_MS)
            },
        }
    }

    /// Takes an event: opens the device, reads it as long as it lasts, and
    /// opens it again after a while, or at once when the default output has
    /// changed.
    pub fn step(&mut self, event: ThreadEvent) -> (r: ThreadStep)
        ensures
            r == old(self).step_of(event),
            final(self).input == old(self).input,
            final(self).previously_failed == match event {
                ThreadEvent::Initialized(outcome) => outcome is Err,
                _ => old(self).previously_failed,
            },
    {
        let mut step = ThreadStep {
            state: None,
            reset_restart: false,
            warn: false,
            action: ThreadAction::Initialize,
        };
        match event {
            ThreadEvent::Begin => {},
            ThreadEvent::Initialized(outcome) => match outcome {
                Ok(format) => {
                    self.previously_failed = false;
                    step.state = Some(CaptureState::Active { format });
                    step.action = self.wait();
                },
                Err(why) => {
                    step.warn = !self.previously_failed;
                    self.previously_failed = true;
                    step.state = Some(CaptureState::Retrying(why));
                    step.action = ThreadAction::WaitToReconnect { ms: RECONNECT_INTERVAL_MS };
                },
            },
            ThreadEvent::Signalled(signal) => match signal {
                Signal::Stop => {
                    step.action = ThreadAction::Finish;
                },
                Signal::Receive => {
                    step.action = ThreadAction::Process;
                },
                Signal::Timeout => {
                    step.action = ThreadAction::Process;
                },
                Signal::Restart => {
                    step.reset_restart = true;
                    step.state = Some(CaptureState::Starting);
                },
            },
            ThreadEvent::Processed(alive) => if alive {
                step.action = self.wait();
            } else {
                step.state = Some(
                    CaptureState::Retrying(Message::from(Kind::DeviceDisconnected)),
                );
                step.action = ThreadAction::WaitToReconnect { ms: RECONNECT_INTERVAL_MS };
            },
            ThreadEvent::Waited(signal) => match signal {
                Signal::Stop => {
                    step.action = ThreadAction::Finish;
                },
                Signal::Restart => {
                    step.reset_restart = true;
                },
                _ => {},
            },
        }
        step
    }
}

/// The capture thread ends when it is told to stop, whatever it is waiting
/// for, and never otherwise.
pub proof fn law_only_a_stop_ends_the_thread(thread: CaptureThread, event: ThreadEvent)
    ensures
        thread.step_of(event).action is Finish <==> event == ThreadEvent::Signalled(Signal::Stop)
            || event == ThreadEvent::Waited(Signal::Stop),
{
}

/// A device that failed or disappeared is reported as being retried, and the
/// thread waits a full reconnection interval before it opens it again; a new
/// default output is opened at once.
pub proof fn law_failures_are_retried(thread: CaptureThread, why: Message)
    ensures
        ({
            let failed = thread.step_of(ThreadEvent::Initialized(Err(why)));
            &&& failed.state == Some(CaptureState::Retrying(why))
            &&& failed.action == (ThreadAction::WaitToReconnect { ms: RECONNECT_INTERVAL_MS })
        }),
        ({
            let gone = thread.step_of(ThreadEvent::Processed(false));
            &&& gone.state matches Some(CaptureState::Retrying(_))
            &&& gone.action == (ThreadAction::WaitToReconnect { ms: RECONNECT_INTERVAL_MS })
        }),
        thread.step_of(ThreadEvent::Signalled(Signal::Restart)).action is Initialize,
        thread.step_of(ThreadEvent::Waited(Signal::Restart)).action is Initialize,
        thread.step_of(ThreadEvent::Waited(Signal::Timeout)).action is Initialize,
{
}

/// What happened while packets were being read.
#[derive(Debug, Clone, Copy, PartialEq, Eq)]
pub enum PacketEvent {
    Begin,
    /// The size of the next packet, none where asking failed.
    Size(Option<u32>),
    /// The frames of a packet and whether it is silent, none where getting it
    /// failed.
    Buffer(Option<(u32, bool)>),
    /// The packet was handed on.
    Delivered,
}

/// What to do next while packets are being read.
#[derive(Debug, Clone, Copy, PartialEq, Eq, Structural)]
pub enum PacketAction {
    AskSize,
    GetBuffer,
    /// Hand on that many bytes: those of the packet, or zeros.
    Deliver { frames: u32, bytes: usize, silent: bool },
    /// All packets were read, or the device is gone.
    Return(bool),
}

/// The packets of a capture.
pub struct Packets {
    /// Bytes of one frame.
    pub block: usize,
    /// Zeros, as many as the longest silent packet so far.
    pub silence: Vec<u8>,
}

impl Packets {
    pub open spec fn wf(&self) -> bool {
        forall|i: int| 0 <= i < self.silence@.len() ==> #[trigger] self.silence@[i] == 0
    }

    pub fn new(block: usize) -> (p: Self)
        ensures
            p.wf(),
            p.block == block,
            p.silence@.len() == 0,
    {
        Packets { block, silence: Vec::new() }
    }

    /// Reads packets until there are no more.
    pub fn step(&self, event: PacketEvent) -> (r: PacketAction)
        requires
            event matches PacketEvent::Buffer(Some((frames, _))) ==> frames * self.block
                <= usize::MAX,
        ensures
            r == match event {
                PacketEvent::Begin | PacketEvent::Delivered => PacketAction::AskSize,
                PacketEvent::Size(None) => PacketAction::Return(false),
                PacketEvent::Size(Some(size)) => if size == 0 {
                    PacketAction::Return(true)
                } else {
                    PacketAction::GetBuffer
                },
                PacketEvent::Buffer(None) => PacketAction::Return(false),
                PacketEvent::Buffer(Some((frames, silent))) => PacketAction::Deliver {
                    frames,
                    bytes: (frames * self.block) as usize,
                    silent,
                },
            },
    {
        match event {
            PacketEvent::Begin => PacketAction::AskSize,
            PacketEvent::Delivered => PacketAction::AskSize,
            PacketEvent::Size(None) => PacketAction::Return(false),
            PacketEvent::Size(Some(size)) => if size == 0 {
                PacketAction::Return(true)
            } else {
                PacketAction::GetBuffer
            },
            PacketEvent::Buffer(None) => PacketAction::Return(false),
            PacketEvent::Buffer(Some((frames, silent))) => {
                let bytes: usize = (frames as usize) * self.block;
                PacketAction::Deliver { frames, bytes, silent }
            },
        }
    }

    /// Makes sure that there are zeros for a silent packet.
    pub fn lengthen(&mut self, bytes: usize)
        requires
            old(self).wf(),
        ensures
            final(self).wf(),
            final(self).block == old(self).block,
            final(self).silence@.len() == if old(self).silence@.len() < bytes {
                bytes as int
            } else {
                old(self).silence@.len() as int
            },
    {
        if self.silence.len() < bytes {
            let ghost before = self.silence@;
            self.silence.resize(bytes, 0);
            assert forall|i: int| 0 <= i < self.silence@.len() implies #[trigger] self.silence@[i]
                == 0 by {
                if i < before.len() {
                    assert(self.silence@.subrange(0, before.len() as int)[i] == before[i]);
                } else {
                    assert(cloned::<u8>(0, self.silence@[i]));
                }
            }
        }
    }

    /// A silent packet.
    pub fn silent(&self, bytes: usize) -> (r: &[u8])
        requires
            self.wf(),
            bytes <= self.silence@.len(),
        ensures
            r@ == Seq::new(bytes as nat, |i: int| 0u8),
    {
        let r = vstd::slice::slice_subrange(self.silence.as_slice(), 0, bytes);
        assert(r@ =~= Seq::new(bytes as nat, |i: int| 0u8));
        r
    }
}

/// What a monitor has written and skipped.
#[derive(Debug, Clone, Copy, PartialEq, Eq, Structural)]
pub struct RenderCounter {
    /// Size of the device buffer, to tell a full one from a broken one.
    pub buffer_frames: u32,
    /// Frames handed to the device so far.
    pub written: u64,
    /// Packets skipped because the device had no room left.
    pub skipped: Tally,
}

/// What to do with a packet.
#[derive(Debug, Clone, Copy, PartialEq, Eq, Structural)]
pub enum PacketFit {
    Write,
    /// The device has no room: one packet less lets it drain. The flag tells
    /// whether to say so in the log.
    Skip { worth_a_line: bool },
}

impl RenderCounter {
    pub fn new(buffer_frames: u32) -> (c: Self)
        ensures
            c.buffer_frames == buffer_frames,
            c.written == 0,
            c.skipped.total == 0,
    {
        RenderCounter { buffer_frames, written: 0, skipped: Tally::new() }
    }

    /// The room left with `padding` frames still to be played.
    pub open spec fn room(self, padding: u32) -> int {
        if padding <= self.buffer_frames {
            self.buffer_frames - padding
        } else {
            0
        }
    }

    /// Decides about a packet.
    pub fn fit(&mut self, frames: u32, padding: u32) -> (r: PacketFit)
        requires
            old(self).skipped.total < u64::MAX,
        ensures
            r is Write == (frames <= old(self).room(padding)),
            r is Write ==> *final(self) == *old(self),
            r matches PacketFit::Skip { worth_a_line } ==> {
                &&& *final(self) == (RenderCounter {
                    skipped: Tally { total: (old(self).skipped.total + 1) as u64 },
                    ..*old(self)
                })
                &&& worth_a_line == vstd::arithmetic::power2::is_pow2(
                    old(self).skipped.total + 1,
                )
            },
    {
        let room: u32 = if padding <= self.buffer_frames {
            self.buffer_frames - padding
        } else {
            0
        };
        if frames > room {
            let worth_a_line = self.skipped.note(1);
            return PacketFit::Skip { worth_a_line };
        }
        PacketFit::Write
    }

    /// A packet was handed to the device.
    pub fn wrote(&mut self, frames: u32)
        requires
            old(self).written + frames <= u64::MAX,
        ensures
            *final(self) == (RenderCounter {
                written: (old(self).written + frames) as u64,
                ..*old(self)
            }),
    {
        self.written = self.written + frames as u64;
    }
}

/// What happened to a monitor's client during a packet.
#[derive(Debug, Clone, Copy, PartialEq, Eq, Structural)]
pub enum ClientEvent {
    /// A packet came, with a client open or not.
    Packet { open: bool },
    /// The client was opened again, or could not be.
    Opened(bool),
    /// The packet was written, or could not be.
    Wrote(bool),
}

/// What to do next with a packet.
#[derive(Debug, Clone, Copy, PartialEq, Eq, Structural)]
pub enum ClientAction {
    /// Open a client, as in [`init_monitor_client`].
    Open,
    Write,
    /// Drop the client: the next packet opens another.
    Drop,
    Done,
}

/// Takes a packet, step by step: it goes to the client that is open, or to one
/// opened for it, and a client that fails is dropped.
pub fn on_audio(event: ClientEvent) -> (r: ClientAction)
    ensures
        r == match event {
            ClientEvent::Packet { open } => if open {
                ClientAction::Write
            } else {
                ClientAction::Open
            },
            ClientEvent::Opened(ok) => if ok {
                ClientAction::Write
            } else {
                ClientAction::Done
            },
            ClientEvent::Wrote(ok) => if ok {
                ClientAction::Done
            } else {
                ClientAction::Drop
            },
        },
{
    match event {
        ClientEvent::Packet { open } => if open {
            ClientAction::Write
        } else {
            ClientAction::Open
        },
        ClientEvent::Opened(ok) => if ok {
            ClientAction::Write
        } else {
            ClientAction::Done
        },
        ClientEvent::Wrote(ok) => if ok {
            ClientAction::Done
        } else {
            ClientAction::Drop
        },
    }
}

/// What a monitor reports once a packet could not be written: its client is
/// dropped, and the next packet opens another.
pub fn lost_client() -> (r: MonitorState)
    ensures
        r == MonitorState::Reconnecting(Kind::DeviceUnavailable.plain()),
{
    MonitorState::Reconnecting(Message::from(Kind::DeviceUnavailable))
}

/// What a monitor reports once a packet has opened its client again.
pub fn reopened_client(format: &String) -> (r: MonitorState)
    ensures
        r == (MonitorState::Playing { format: *format }),
{
    MonitorState::Playing { format: format.clone() }
}

/// Whether a change of a default device matters: that of the output, in the
/// console role.
pub fn default_device_changed(render: bool, console: bool) -> (r: Option<SystemEvent>)
    ensures
        r == if render && console {
            Some(SystemEvent::DefaultOutputChanged)
        } else {
            None
        },
{
    if render && console {
        Some(SystemEvent::DefaultOutputChanged)
    } else {
        None
    }
}

/// How many speakers a channel mask names.
pub open spec fn speakers_in(mask: u32) -> nat
    decreases mask,
{
    if mask == 0 {
        0
    } else {
        mask as nat % 2 + speakers_in(mask / 2)
    }
}

proof fn lemma_masks()
    ensures
        speakers_in(0) == 0,
        speakers_in(KSAUDIO_SPEAKER_STEREO) == 2,
        speakers_in(KSAUDIO_SPEAKER_2POINT1) == 3,
        speakers_in(KSAUDIO_SPEAKER_SURROUND) == 4,
        speakers_in(OBS_KSAUDIO_SPEAKER_4POINT1) == 5,
        speakers_in(KSAUDIO_SPEAKER_5POINT1) == 6,
        speakers_in(KSAUDIO_SPEAKER_5POINT1_SURROUND) == 6,
        speakers_in(KSAUDIO_SPEAKER_7POINT1) == 8,
        speakers_in(KSAUDIO_SPEAKER_7POINT1_SURROUND) == 8,
{
    reveal_with_fuel(speakers_in, 12);
}

/// A layout has as many channels as its device, for captures and monitors
/// alike: whatever the mask, as long as it names as many speakers as there are
/// channels, or none.
pub proof fn law_a_layout_has_the_channels_of_its_device(
    mask: u32,
    channels: usize,
    capture: Speakers,
    monitor: Speakers,
)
    requires
        speakers_in(mask) == channels || mask == 0,
        1 <= channels <= 6 || channels == 8,
        call_ensures(capture_speakers, (mask, channels), capture),
        call_ensures(monitor_speakers, (mask, channels), monitor),
    ensures
        capture.channel_count() == channels,
        monitor.channel_count() == channels,
{
    lemma_masks();
}

/// What a device is opened in is at its own rate, in interleaved floats, and
/// with its own channels; a mask counts only where the format has one.
pub proof fn law_devices_are_opened_in_their_own_format(
    wave: &WaveFormat,
    mask: u32,
    capture: AudioSpec,
    monitor: AudioSpec,
    frames: u32,
    bytes: u64,
)
    requires
        call_ensures(WaveFormat::channel_mask, (wave,), mask),
        call_ensures(WaveFormat::capture_spec, (wave,), capture),
        call_ensures(WaveFormat::monitor_spec, (wave,), monitor),
        call_ensures(WaveFormat::frame_bytes, (wave, frames), bytes),
    ensures
        wave.tag == 0xFFFE ==> mask == wave.mask,
        wave.tag != 0xFFFE ==> mask == 0,
        capture.rate == wave.rate,
        monitor.rate == wave.rate,
        capture.format is Float,
        monitor.format is Float,
        (speakers_in(mask) == wave.channels || mask == 0) && (1 <= wave.channels <= 6
            || wave.channels == 8) ==> capture.speakers.channel_count() == wave.channels
            && monitor.speakers.channel_count() == wave.channels,
        frames == 0 ==> bytes == 0,
        frames == 1 ==> bytes == wave.block_align,
        wave.block_align > 0 ==> bytes / wave.block_align as u64 == frames && bytes
            % wave.block_align as u64 == 0,
{
    lemma_masks();
    let b = wave.block_align as int;
    let f = frames as int;
    assert(f == 0 ==> f * b == 0) by (nonlinear_arith);
    assert(f == 1 ==> f * b == b) by (nonlinear_arith);
    if b > 0 {
        assert((f * b) / b == f && (f * b) % b == 0) by (nonlinear_arith)
            requires
                b > 0,
        ;
    }
}

/// A source records one output at the most, and only a monitor on that one is
/// kept out. Desktop audio records the default output, an output source the one
/// that it names, and an input none.
pub proof fn law_only_the_recorded_output_is_kept_out(
    source: &str,
    default: &Option<String>,
    device: &str,
    kept_out: bool,
    other: &str,
    other_out: bool,
    captured: Option<String>,
    parsed: Result<SourceType, Message>,
)
    requires
        call_ensures(is_self_monitor, (source, default, device), kept_out),
        call_ensures(is_self_monitor, (source, default, other), other_out),
        call_ensures(captured_output, (source, default), captured),
        call_ensures(SourceType::parse, (source,), parsed),
    ensures
        kept_out && other_out ==> device@ == other@,
        kept_out <==> captured is Some && captured->0@ == device@,
        source@ == DESKTOP@ ==> (kept_out <==> default is Some && default->0@ == device@),
        source@ == DESKTOP@ <==> parsed == Ok::<SourceType, Message>(SourceType::DefaultOutput),
        (parsed matches Ok(SourceType::DeviceOutput(id))) ==> (kept_out
            <==> parsed->Ok_0->DeviceOutput_0@ == device@),
        (parsed matches Ok(SourceType::Input(_))) || parsed is Err ==> !kept_out,
{
    reveal_strlit("output:");
    reveal_strlit("desktop");
    let n = OUTPUT_PREFIX@.len() as int;
    assert forall|x: Seq<char>, y: Seq<char>| #[trigger] (OUTPUT_PREFIX@ + x) == #[trigger] (
    OUTPUT_PREFIX@ + y) implies x == y by {
        assert(x =~= (OUTPUT_PREFIX@ + x).skip(n));
        assert(y =~= (OUTPUT_PREFIX@ + y).skip(n));
    }
    if source@ == OUTPUT_PREFIX@ + device@ {
        assert(source@.subrange(0, n) =~= OUTPUT_PREFIX@);
    }
    match captured {
        Some(out) => {
            assert(recorded(source@, *default, out@));
            if source@ != DESKTOP@ {
                assert(source@ == OUTPUT_PREFIX@ + out@);
            }
        },
        None => {
            assert(!recorded(source@, *default, device@));
        },
    }
}

/// Each output of the system can be played on and recorded, each input can be
/// recorded, and the default ones are marked; the desktop stands first and
/// records the default output.
pub proof fn law_every_device_is_listed(
    listing: &Result<Listing, String>,
    r: Result<DeviceList, Message>,
    i: int,
    k: int,
)
    requires
        call_ensures(enumerate, (listing,), r),
        listing is Ok,
        0 <= i < listing->Ok_0.renders@.len(),
        0 <= k < listing->Ok_0.captures@.len(),
    ensures
        r matches Ok(list) && {
            let l = listing->Ok_0;
            let (id, name) = l.renders@[i];
            &&& list.outputs@.len() == l.renders@.len()
            &&& list.outputs@[i].id@ == id@
            &&& list.outputs@[i].name@ == name@
            &&& list.outputs@[i].is_default <==> l.default_out is Some && l.default_out->0@ == id@
            &&& list.sources@[0].id@ == DESKTOP@ && list.sources@[0].name@ == "Default output"@
            &&& list.sources@[0].kind is Desktop && !list.sources@[0].is_default
            &&& list.sources@[0].captures_output == l.default_out
            &&& exists|n: int|
                0 <= n < list.sources@.len() && {
                    let s = #[trigger] list.sources@[n];
                    &&& s.id@ == OUTPUT_PREFIX@ + id@ && s.name@ == name@ && s.kind is Loopback
                    &&& s.is_default <==> l.default_out is Some && l.default_out->0@ == id@
                    &&& s.captures_output matches Some(out) && out@ == id@
                }
            &&& exists|n: int|
                0 <= n < list.sources@.len() && {
                    let s = #[trigger] list.sources@[n];
                    &&& s.id@ == INPUT_PREFIX@ + l.captures@[k].0@
                    &&& s.name@ == l.captures@[k].1@ && s.kind is Capture
                    &&& s.captures_output is None
                    &&& s.is_default <==> l.default_in is Some && l.default_in->0@
                        == l.captures@[k].0@
                }
        },
{
    let l = listing->Ok_0;
    let list = r->Ok_0;
    assert(is_output(list.outputs@[i], l.renders@[i], l));
    assert(is_loopback(list.sources@[1 + i], l.renders@[i], l));
    assert(is_capture(list.sources@[1 + l.renders@.len() + k], l.captures@[k], l));
}

/// Opening a device begins by finding it and ends by starting it, and no call
/// is made twice. An output that is recorded is cleared first, an input never
/// is; the default output is asked for, any other device is found by its id.
pub proof fn law_devices_are_opened_in_order(
    source: &SourceType,
    capture: Vec<CaptureStep>,
    monitor: Vec<MonitorStep>,
)
    requires
        call_ensures(initialize_capture, (source,), capture),
        call_ensures(init_monitor_client, (), monitor),
    ensures
        capture@.first() is Enumerator,
        capture@.last() is Start,
        capture@.no_duplicates(),
        capture@.contains(CaptureStep::Activate),
        capture@.contains(CaptureStep::MixFormat),
        capture@.contains(CaptureStep::Initialize),
        capture@.contains(CaptureStep::CaptureClient),
        capture@.contains(CaptureStep::DefaultEndpoint) <==> *source is DefaultOutput,
        capture@.contains(CaptureStep::Device) <==> !(*source is DefaultOutput),
        capture@.contains(CaptureStep::ClearGetBuffer) <==> !(*source is Input),
        monitor@.first() is Enumerator,
        monitor@.last() is Start,
        monitor@.no_duplicates(),
        monitor@.contains(MonitorStep::Device),
        monitor@.contains(MonitorStep::Activate),
        monitor@.contains(MonitorStep::Initialize),
        monitor@.contains(MonitorStep::Resampler),
        monitor@.contains(MonitorStep::RenderClient),
        monitor@.contains(MonitorStep::Clock),
{
    let c = capture@;
    assert(c[1] is DefaultEndpoint || c[1] is Device);
    assert(c[2] == CaptureStep::Activate);
    assert(c[3] == CaptureStep::MixFormat);
    assert(c[4] == CaptureStep::Initialize);
    assert(c[c.len() - 3] == CaptureStep::CaptureClient);
    if !(*source is Input) {
        assert(c[10] == CaptureStep::ClearGetBuffer);
    }
    let m = monitor@;
    assert(m[1] == MonitorStep::Device);
    assert(m[2] == MonitorStep::Activate);
    assert(m[4] == MonitorStep::Initialize);
    assert(m[5] == MonitorStep::Resampler);
    assert(m[7] == MonitorStep::RenderClient);
    assert(m[8] == MonitorStep::Clock);
}

/// The capture thread reads its device as long as it lasts: one that opened is
/// reported with its format and waited for, what it has is read, and it is
/// waited for again. One that failed is reported, waited three seconds for, and
/// opened again; only the first failure in a row is worth a line.
pub proof fn law_the_thread_reads_and_reconnects(
    thread: &mut CaptureThread,
    event: ThreadEvent,
    r: ThreadStep,
    next: &mut CaptureThread,
    again: ThreadEvent,
    s: ThreadStep,
)
    requires
        call_ensures(CaptureThread::step, (thread, event), r),
        *old(next) == *final(thread),
        call_ensures(CaptureThread::step, (next, again), s),
    ensures
        event is Begin ==> r.action is Initialize,
        event matches ThreadEvent::Initialized(Ok(format)) ==> r.state == Some(
            CaptureState::Active { format },
        ) && r.action is Wait,
        event matches ThreadEvent::Initialized(Err(why)) ==> r.state == Some(
            CaptureState::Retrying(why),
        ) && r.action == (ThreadAction::WaitToReconnect { ms: 3000 }),
        event == ThreadEvent::Signalled(Signal::Receive) || event == ThreadEvent::Signalled(
            Signal::Timeout,
        ) ==> r.action is Process,
        event == ThreadEvent::Processed(true) ==> r.action is Wait && r.state is None,
        event == ThreadEvent::Processed(false) ==> (r.state matches Some(CaptureState::Retrying(_)))
            && r.action == (ThreadAction::WaitToReconnect { ms: 3000 }),
        event == ThreadEvent::Waited(Signal::Timeout) ==> r.action is Initialize,
        event == ThreadEvent::Processed(false) ==> r.state->0->Retrying_0.kind is DeviceDisconnected,
        event is Waited ==> r.state is None && (r.action is Initialize || r.action is Finish),
        event is Begin || event == ThreadEvent::Signalled(Signal::Receive) || event
            == ThreadEvent::Signalled(Signal::Timeout) || event == ThreadEvent::Signalled(
            Signal::Stop,
        ) ==> r.state is None,
        event == ThreadEvent::Signalled(Signal::Restart) ==> r.state == Some(
            CaptureState::Starting,
        ) && r.action is Initialize,
        r.reset_restart <==> event == ThreadEvent::Signalled(Signal::Restart) || event
            == ThreadEvent::Waited(Signal::Restart),
        r.warn ==> (event matches ThreadEvent::Initialized(Err(_))),
        event == ThreadEvent::Waited(Signal::Restart) ==> r.action is Initialize,
        event == ThreadEvent::Signalled(Signal::Stop) || event == ThreadEvent::Waited(
            Signal::Stop,
        ) <==> r.action is Finish,
        r.action matches ThreadAction::Wait { wake_ms } ==> if old(thread).input {
            wake_ms is None
        } else {
            wake_ms matches Some(ms) && ms == 10
        },
        final(thread).input == old(thread).input,
        (event matches ThreadEvent::Initialized(Err(_))) && (again matches ThreadEvent::Initialized(
            Err(_),
        )) ==> !s.warn,
        (event matches ThreadEvent::Initialized(Ok(_))) && (again matches ThreadEvent::Initialized(
            Err(_),
        )) ==> s.warn,
{
}

/// Packets are read until none is left, each handed on whole, silent ones as
/// silent; a failure ends it.
pub proof fn law_every_packet_is_handed_on(packets: &Packets, event: PacketEvent, r: PacketAction)
    requires
        event matches PacketEvent::Buffer(Some((frames, _))) ==> frames * packets.block
            <= usize::MAX,
        call_ensures(Packets::step, (packets, event), r),
    ensures
        event is Begin || event is Delivered ==> r is AskSize,
        event matches PacketEvent::Size(Some(n)) ==> r == if n == 0 {
            PacketAction::Return(true)
        } else {
            PacketAction::GetBuffer
        },
        event == PacketEvent::Size(None) || event == PacketEvent::Buffer(None) ==> r
            == PacketAction::Return(false),
        event matches PacketEvent::Buffer(Some((frames, silent))) ==> (r matches
            PacketAction::Deliver { frames: f, bytes, silent: s } && f == frames && s == silent
            && bytes == frames * packets.block),
{
}

/// A packet is written exactly where the device has room for all of it beside
/// what still waits there, and else skipped and counted, once.
pub proof fn law_a_packet_is_written_where_it_fits(
    counter: &mut RenderCounter,
    frames: u32,
    padding: u32,
    r: PacketFit,
    writer: &mut RenderCounter,
)
    requires
        old(counter).skipped.total < u64::MAX,
        call_ensures(RenderCounter::fit, (counter, frames, padding), r),
        old(writer).written + frames <= u64::MAX,
        call_ensures(RenderCounter::wrote, (writer, frames), ()),
    ensures
        frames > 0 ==> (r is Write <==> padding + frames <= old(counter).buffer_frames),
        r is Write ==> *final(counter) == *old(counter),
        r is Skip ==> final(counter).skipped.total == old(counter).skipped.total + 1,
        final(counter).buffer_frames == old(counter).buffer_frames,
        final(counter).written == old(counter).written,
        final(writer).written == old(writer).written + frames,
        final(writer).skipped == old(writer).skipped,
        final(writer).buffer_frames == old(writer).buffer_frames,
{
}

/// A packet reaches the device through the client that is open, or one that is
/// opened for it; a client that failed is dropped, so the next packet opens
/// another.
pub proof fn law_a_lost_client_is_opened_again(
    open: bool,
    first: ClientAction,
    opened: bool,
    second: ClientAction,
    wrote: bool,
    third: ClientAction,
    lost: MonitorState,
    format: &String,
    back: MonitorState,
)
    requires
        call_ensures(on_audio, (ClientEvent::Packet { open },), first),
        call_ensures(on_audio, (ClientEvent::Opened(opened),), second),
        call_ensures(on_audio, (ClientEvent::Wrote(wrote),), third),
        call_ensures(lost_client, (), lost),
        call_ensures(reopened_client, (format,), back),
    ensures
        first is Write <==> open,
        first is Open <==> !open,
        second is Write <==> opened,
        second is Done <==> !opened,
        third is Drop <==> !wrote,
        third is Done <==> wrote,
        lost is Reconnecting,
        back == (MonitorState::Playing { format: *format }),
{
}

/// Only a new default output, in the console role, is told of.
pub proof fn law_a_new_default_output_is_told_of(
    render: bool,
    console: bool,
    r: Option<SystemEvent>,
)
    requires
        call_ensures(default_device_changed, (render, console), r),
    ensures
        r is Some <==> render && console,
        r matches Some(e) ==> e is DefaultOutputChanged,
{
}

/// A call that failed is reported with its code, in eight digits; only the
/// resampler has none. What is told of a device that could not be found, opened
/// or started differs.
pub proof fn law_a_failed_call_is_named(
    step: CaptureStep,
    m: Message,
    monitor: MonitorStep,
    n: Message,
    code: i32,
)
    requires
        call_ensures(CaptureStep::failed, (step, code), m),
        call_ensures(MonitorStep::failed, (monitor, code), n),
    ensures
        m.detail matches Some(d) && d@ == hexadecimal((code as u32) as nat, 8),
        step is Device <==> m.kind is WasapiEnumerateDevice,
        step is DefaultEndpoint <==> m.kind is WasapiDefaultEndpoint,
        step is Start <==> m.kind is WasapiStartCapture,
        step is Initialize || step is ClearInitialize <==> m.kind is WasapiInitialize,
        step is Enumerator <==> m.kind is WasapiEnumerator,
        step is Activate || step is ClearActivate <==> m.kind is WasapiActivateClient,
        step is MixFormat || step is ClearMixFormat <==> m.kind is WasapiMixFormat,
        step is ClearBufferSize <==> m.kind is WasapiBufferSize,
        step is ClearRenderClient <==> m.kind is WasapiRenderClient,
        step is ClearGetBuffer <==> m.kind is WasapiGetBuffer,
        step is CaptureClient <==> m.kind is WasapiCaptureClient,
        step is EventHandle <==> m.kind is WasapiEventHandle,
        monitor is Enumerator <==> n.kind is WasapiMonitorEnumerator,
        monitor is Activate <==> n.kind is WasapiActivate,
        monitor is MixFormat <==> n.kind is WasapiMixFormat,
        monitor is Initialize <==> n.kind is WasapiMonitorInitialize,
        monitor is BufferSize <==> n.kind is WasapiBufferSize,
        monitor is Resampler <==> n.kind is Resampler,
        monitor is Resampler ==> n.detail is None,
        !(monitor is Resampler) ==> (n.detail matches Some(d) && d@ == hexadecimal(
            (code as u32) as nat,
            8,
        )),
        monitor is Device <==> n.kind is WasapiGetDevice,
        monitor is Start <==> n.kind is WasapiStartRender,
{
}

/// Only the source of an input is one.
pub proof fn law_only_an_input_is_an_input(source: &SourceType, r: bool, copy: SourceType)
    requires
        call_ensures(SourceType::is_input, (source,), r),
        call_ensures(SourceType::clone, (source,), copy),
    ensures
        r <==> *source is Input,
        copy == *source,
{
}

/// The code of a failure is told in eight hexadecimal digits, behind what failed.
pub proof fn law_a_code_is_told_in_hexadecimal(context: Kind, code: i32, m: Message)
    requires
        call_ensures(hr, (context, code), m),
    ensures
        m.kind == context,
        m.detail is Some && m.detail->0@ == hexadecimal((code as u32) as nat, 8),
{
}

/// A new thread has not failed; new packets have no silence yet; a new counter
/// has written and skipped nothing.
pub proof fn law_a_new_client_starts_from_nothing(
    input: bool,
    thread: CaptureThread,
    block: usize,
    packets: Packets,
    frames: u32,
    counter: RenderCounter,
)
    requires
        call_ensures(CaptureThread::new, (input,), thread),
        call_ensures(Packets::new, (block,), packets),
        call_ensures(RenderCounter::new, (frames,), counter),
    ensures
        thread.input == input && !thread.previously_failed,
        packets.block == block && packets.silence@.len() == 0,
        counter.buffer_frames == frames && counter.written == 0 && counter.skipped.total == 0,
{
}

/// A silent packet is as long as it is asked for and holds nothing but zeros.
pub proof fn law_a_silent_packet_is_silent(
    packets: &mut Packets,
    bytes: usize,
    after: &Packets,
    r: &[u8],
    i: int,
)
    requires
        old(packets).wf(),
        call_ensures(Packets::lengthen, (packets, bytes), ()),
        *after == *final(packets),
        call_ensures(Packets::silent, (after, bytes), r),
        0 <= i < bytes,
    ensures
        final(packets).silence@.len() >= bytes,
        final(packets).silence@.len() >= old(packets).silence@.len(),
        r@.len() == bytes && r@[i] == 0,
        final(packets).block == old(packets).block,
{
}

} // verus!
