//! Status messages the engine reports to the user interface.
//!
//! The English wording is also what reaches the log, but every message
//! carries a stable code, so the interface can translate it without matching
//! on the text.

use vstd::prelude::*;

verus! {

/// One kind of message, with a stable code and an English wording.
#[derive(Debug, Clone, Copy, PartialEq, Eq, Structural)]
pub enum Kind {
    /// An error the system reported in its own words; only the detail is shown.
    System,
    // Shared by every backend.
    CapturedBySource,
    DeviceDisconnected,
    DeviceUnavailable,
    UnknownSource,
    Resampler,
    // Linux (PulseAudio).
    PulseUnavailable,
    ServerInfo,
    SourceInfo,
    SampleSpec,
    StreamCreate,
    StreamConnect,
    InvalidDeviceName,
    // macOS (ScreenCaptureKit, AUHAL, AudioQueue).
    ScreenPermission,
    ScreenTimeout,
    MainDisplay,
    VideoStreamOutput,
    AudioStreamOutput,
    CaptureStart,
    StreamStopped,
    WaitingForDevice,
    QueueCreate,
    OutputUnavailable,
    QueueVolume,
    QueueBuffers,
    QueueStart,
    // Windows (WASAPI). Each of these carries the system error code as its detail.
    WasapiEnumerator,
    WasapiDefaultEndpoint,
    WasapiEnumerateDevice,
    WasapiGetDevice,
    WasapiActivate,
    WasapiActivateClient,
    WasapiMixFormat,
    WasapiInitialize,
    WasapiCaptureClient,
    WasapiEventHandle,
    WasapiStartCapture,
    WasapiBufferSize,
    WasapiRenderClient,
    WasapiGetBuffer,
    WasapiStartRender,
    // The monitoring side words three of them differently.
    WasapiMonitorEnumerator,
    WasapiMonitorInitialize,
    WasapiMonitorRenderClient,
}

/// A message on its way to the interface.
#[derive(Debug, PartialEq, Eq)]
pub struct Message {
    pub kind: Kind,
    /// What cannot be translated, such as a system error code.
    pub detail: Option<String>,
}

impl Clone for Message {
    fn clone(&self) -> (r: Self)
        ensures
            r == *self,
    {
        let detail = match &self.detail {
            Some(detail) => Some(detail.clone()),
            None => None,
        };
        Message { kind: self.kind, detail }
    }
}

impl Kind {
    /// Translation key, stable across wording changes.
    pub open spec fn code_of(self) -> &'static str {
        match self {
            Kind::System => "system",
            Kind::CapturedBySource => "capturedBySource",
            Kind::DeviceDisconnected => "deviceDisconnected",
            Kind::DeviceUnavailable => "deviceUnavailable",
            Kind::UnknownSource => "unknownSource",
            Kind::Resampler => "resampler",
            Kind::PulseUnavailable => "pulseUnavailable",
            Kind::ServerInfo => "serverInfo",
            Kind::SourceInfo => "sourceInfo",
            Kind::SampleSpec => "sampleSpec",
            Kind::StreamCreate => "streamCreate",
            Kind::StreamConnect => "streamConnect",
            Kind::InvalidDeviceName => "invalidDeviceName",
            Kind::ScreenPermission => "screenPermission",
            Kind::ScreenTimeout => "screenTimeout",
            Kind::MainDisplay => "mainDisplay",
            Kind::VideoStreamOutput => "videoStreamOutput",
            Kind::AudioStreamOutput => "audioStreamOutput",
            Kind::CaptureStart => "captureStart",
            Kind::StreamStopped => "streamStopped",
            Kind::WaitingForDevice => "waitingForDevice",
            Kind::QueueCreate => "queueCreate",
            Kind::OutputUnavailable => "outputUnavailable",
            Kind::QueueVolume => "queueVolume",
            Kind::QueueBuffers => "queueBuffers",
            Kind::QueueStart => "queueStart",
            Kind::WasapiEnumerator => "wasapiEnumerator",
            Kind::WasapiDefaultEndpoint => "wasapiDefaultEndpoint",
            Kind::WasapiEnumerateDevice => "wasapiEnumerateDevice",
            Kind::WasapiGetDevice => "wasapiGetDevice",
            Kind::WasapiActivate => "wasapiActivate",
            Kind::WasapiActivateClient => "wasapiActivateClient",
            Kind::WasapiMixFormat => "wasapiMixFormat",
            Kind::WasapiInitialize => "wasapiInitialize",
            Kind::WasapiCaptureClient => "wasapiCaptureClient",
            Kind::WasapiEventHandle => "wasapiEventHandle",
            Kind::WasapiStartCapture => "wasapiStartCapture",
            Kind::WasapiBufferSize => "wasapiBufferSize",
            Kind::WasapiRenderClient => "wasapiRenderClient",
            Kind::WasapiGetBuffer => "wasapiGetBuffer",
            Kind::WasapiStartRender => "wasapiStartRender",
            Kind::WasapiMonitorEnumerator => "wasapiMonitorEnumerator",
            Kind::WasapiMonitorInitialize => "wasapiMonitorInitialize",
            Kind::WasapiMonitorRenderClient => "wasapiMonitorRenderClient",
        }
    }

    /// English wording, used when the interface has no translation.
    pub open spec fn text_of(self) -> &'static str {
        match self {
            Kind::System => "",
            Kind::CapturedBySource => "Captured by the source",
            Kind::DeviceDisconnected => "Device disconnected",
            Kind::DeviceUnavailable => "Device unavailable",
            Kind::UnknownSource => "Unknown source",
            Kind::Resampler => "Failed to create resampler",
            Kind::PulseUnavailable => "PulseAudio is not available",
            Kind::ServerInfo => "Unable to get server info",
            Kind::SourceInfo => "An error occurred while getting the source info",
            Kind::SampleSpec => "Sample spec is not valid",
            Kind::StreamCreate => "Unable to create stream",
            Kind::StreamConnect => "Unable to connect to stream",
            Kind::InvalidDeviceName => "Invalid device name",
            Kind::ScreenPermission => "Screen Recording permission is required for desktop audio",
            Kind::ScreenTimeout => "Screen capture content timed out",
            Kind::MainDisplay => "Main display not found",
            Kind::VideoStreamOutput => "Failed to add video stream output",
            Kind::AudioStreamOutput => "Failed to add audio stream output",
            Kind::CaptureStart => "Failed to start capture",
            Kind::StreamStopped => "Stream stopped with error",
            Kind::WaitingForDevice => "Waiting for the device",
            Kind::QueueCreate => "Failed to create the audio queue",
            Kind::OutputUnavailable => "Output device unavailable",
            Kind::QueueVolume => "Failed to set the queue volume",
            Kind::QueueBuffers => "Failed to allocate audio buffers",
            Kind::QueueStart => "Failed to start the audio queue",
            Kind::WasapiEnumerator => "Failed to create enumerator",
            Kind::WasapiDefaultEndpoint => "Failed GetDefaultAudioEndpoint",
            Kind::WasapiEnumerateDevice => "Failed to enumerate device",
            Kind::WasapiGetDevice => "Failed to get device",
            Kind::WasapiActivate => "Failed to activate device",
            Kind::WasapiActivateClient => "Failed to activate client context",
            Kind::WasapiMixFormat => "Failed to get mix format",
            Kind::WasapiInitialize => "Failed to initialize audio client",
            Kind::WasapiCaptureClient => "Failed to create capture context",
            Kind::WasapiEventHandle => "Failed to set event handle",
            Kind::WasapiStartCapture => "Failed to start capture client",
            Kind::WasapiBufferSize => "Failed to get buffer size",
            Kind::WasapiRenderClient => "Failed to get render client",
            Kind::WasapiGetBuffer => "Failed to get buffer",
            Kind::WasapiStartRender => "Failed to start audio",
            Kind::WasapiMonitorEnumerator => "Failed to create IMMDeviceEnumerator",
            Kind::WasapiMonitorInitialize => "Failed to initialize",
            Kind::WasapiMonitorRenderClient => "Failed to get IAudioRenderClient",
        }
    }

    /// The message of this kind without a detail.
    pub open spec fn plain(self) -> Message {
        Message { kind: self, detail: None }
    }

    /// Whether `m` is the message of this kind with the detail `d`.
    pub open spec fn detailed(self, m: Message, d: Seq<char>) -> bool {
        m.kind == self && (m.detail matches Some(text) && text@ == d)
    }

    /// Translation key, stable across wording changes.
    pub fn code(self) -> (r: &'static str)
        ensures
            r@ == self.code_of()@,
    {
        match self {
            Kind::System => "system",
            Kind::CapturedBySource => "capturedBySource",
            Kind::DeviceDisconnected => "deviceDisconnected",
            Kind::DeviceUnavailable => "deviceUnavailable",
            Kind::UnknownSource => "unknownSource",
            Kind::Resampler => "resampler",
            Kind::PulseUnavailable => "pulseUnavailable",
            Kind::ServerInfo => "serverInfo",
            Kind::SourceInfo => "sourceInfo",
            Kind::SampleSpec => "sampleSpec",
            Kind::StreamCreate => "streamCreate",
            Kind::StreamConnect => "streamConnect",
            Kind::InvalidDeviceName => "invalidDeviceName",
            Kind::ScreenPermission => "screenPermission",
            Kind::ScreenTimeout => "screenTimeout",
            Kind::MainDisplay => "mainDisplay",
            Kind::VideoStreamOutput => "videoStreamOutput",
            Kind::AudioStreamOutput => "audioStreamOutput",
            Kind::CaptureStart => "captureStart",
            Kind::StreamStopped => "streamStopped",
            Kind::WaitingForDevice => "waitingForDevice",
            Kind::QueueCreate => "queueCreate",
            Kind::OutputUnavailable => "outputUnavailable",
            Kind::QueueVolume => "queueVolume",
            Kind::QueueBuffers => "queueBuffers",
            Kind::QueueStart => "queueStart",
            Kind::WasapiEnumerator => "wasapiEnumerator",
            Kind::WasapiDefaultEndpoint => "wasapiDefaultEndpoint",
            Kind::WasapiEnumerateDevice => "wasapiEnumerateDevice",
            Kind::WasapiGetDevice => "wasapiGetDevice",
            Kind::WasapiActivate => "wasapiActivate",
            Kind::WasapiActivateClient => "wasapiActivateClient",
            Kind::WasapiMixFormat => "wasapiMixFormat",
            Kind::WasapiInitialize => "wasapiInitialize",
            Kind::WasapiCaptureClient => "wasapiCaptureClient",
            Kind::WasapiEventHandle => "wasapiEventHandle",
            Kind::WasapiStartCapture => "wasapiStartCapture",
            Kind::WasapiBufferSize => "wasapiBufferSize",
            Kind::WasapiRenderClient => "wasapiRenderClient",
            Kind::WasapiGetBuffer => "wasapiGetBuffer",
            Kind::WasapiStartRender => "wasapiStartRender",
            Kind::WasapiMonitorEnumerator => "wasapiMonitorEnumerator",
            Kind::WasapiMonitorInitialize => "wasapiMonitorInitialize",
            Kind::WasapiMonitorRenderClient => "wasapiMonitorRenderClient",
        }
    }

    /// English wording, used when the interface has no translation.
    pub fn text(self) -> (r: &'static str)
        ensures
            r@ == self.text_of()@,
    {
        match self {
            Kind::System => "",
            Kind::CapturedBySource => "Captured by the source",
            Kind::DeviceDisconnected => "Device disconnected",
            Kind::DeviceUnavailable => "Device unavailable",
            Kind::UnknownSource => "Unknown source",
            Kind::Resampler => "Failed to create resampler",
            Kind::PulseUnavailable => "PulseAudio is not available",
            Kind::ServerInfo => "Unable to get server info",
            Kind::SourceInfo => "An error occurred while getting the source info",
            Kind::SampleSpec => "Sample spec is not valid",
            Kind::StreamCreate => "Unable to create stream",
            Kind::StreamConnect => "Unable to connect to stream",
            Kind::InvalidDeviceName => "Invalid device name",
            Kind::ScreenPermission => "Screen Recording permission is required for desktop audio",
            Kind::ScreenTimeout => "Screen capture content timed out",
            Kind::MainDisplay => "Main display not found",
            Kind::VideoStreamOutput => "Failed to add video stream output",
            Kind::AudioStreamOutput => "Failed to add audio stream output",
            Kind::CaptureStart => "Failed to start capture",
            Kind::StreamStopped => "Stream stopped with error",
            Kind::WaitingForDevice => "Waiting for the device",
            Kind::QueueCreate => "Failed to create the audio queue",
            Kind::OutputUnavailable => "Output device unavailable",
            Kind::QueueVolume => "Failed to set the queue volume",
            Kind::QueueBuffers => "Failed to allocate audio buffers",
            Kind::QueueStart => "Failed to start the audio queue",
            Kind::WasapiEnumerator => "Failed to create enumerator",
            Kind::WasapiDefaultEndpoint => "Failed GetDefaultAudioEndpoint",
            Kind::WasapiEnumerateDevice => "Failed to enumerate device",
            Kind::WasapiGetDevice => "Failed to get device",
            Kind::WasapiActivate => "Failed to activate device",
            Kind::WasapiActivateClient => "Failed to activate client context",
            Kind::WasapiMixFormat => "Failed to get mix format",
            Kind::WasapiInitialize => "Failed to initialize audio client",
            Kind::WasapiCaptureClient => "Failed to create capture context",
            Kind::WasapiEventHandle => "Failed to set event handle",
            Kind::WasapiStartCapture => "Failed to start capture client",
            Kind::WasapiBufferSize => "Failed to get buffer size",
            Kind::WasapiRenderClient => "Failed to get render client",
            Kind::WasapiGetBuffer => "Failed to get buffer",
            Kind::WasapiStartRender => "Failed to start audio",
            Kind::WasapiMonitorEnumerator => "Failed to create IMMDeviceEnumerator",
            Kind::WasapiMonitorInitialize => "Failed to initialize",
            Kind::WasapiMonitorRenderClient => "Failed to get IAudioRenderClient",
        }
    }

    /// The same message with a detail the interface cannot translate, such
    /// as a system error code or an error string that the system already
    /// localized.
    pub fn detail(self, detail: &str) -> (m: Message)
        ensures
            self.detailed(m, detail@),
    {
        Message { kind: self, detail: Some(detail.to_owned()) }
    }
}

impl From<Kind> for Message {
    fn from(kind: Kind) -> (m: Self) {
        Message { kind, detail: None }
    }
}

impl vstd::std_specs::convert::FromSpecImpl<Kind> for Message {
    open spec fn obeys_from_spec() -> bool {
        true
    }

    open spec fn from_spec(kind: Kind) -> Self {
        kind.plain()
    }
}

impl Message {
    /// What is written to the log: the wording, a colon and the detail, or
    /// whichever of the two there is.
    pub open spec fn line(&self) -> Seq<char> {
        let text = self.kind.text_of()@;
        match self.detail {
            Some(detail) => if text.len() == 0 {
                detail@
            } else {
                text + ": "@ + detail@
            },
            None => text,
        }
    }

    /// Translation key, stable across wording changes.
    pub fn code(&self) -> (r: &'static str)
        ensures
            r@ == self.kind.code_of()@,
    {
        self.kind.code()
    }

    /// The message as one line of English.
    pub fn to_string(&self) -> (s: String)
        ensures
            s@ == self.line(),
    {
        let text = self.kind.text();
        match &self.detail {
            Some(detail) => {
                if text.is_empty() {
                    detail.clone()
                } else {
                    let mut s = text.to_owned();
                    s.append(": ");
                    s.append(detail.as_str());
                    s
                }
            },
            None => text.to_owned(),
        }
    }
}

/// Every kind, for anyone auditing the translations.
pub open spec fn all_kinds() -> Seq<Kind> {
    seq![
        Kind::System,
        Kind::CapturedBySource,
        Kind::DeviceDisconnected,
        Kind::DeviceUnavailable,
        Kind::UnknownSource,
        Kind::Resampler,
        Kind::PulseUnavailable,
        Kind::ServerInfo,
        Kind::SourceInfo,
        Kind::SampleSpec,
        Kind::StreamCreate,
        Kind::StreamConnect,
        Kind::InvalidDeviceName,
        Kind::ScreenPermission,
        Kind::ScreenTimeout,
        Kind::MainDisplay,
        Kind::VideoStreamOutput,
        Kind::AudioStreamOutput,
        Kind::CaptureStart,
        Kind::StreamStopped,
        Kind::WaitingForDevice,
        Kind::QueueCreate,
        Kind::OutputUnavailable,
        Kind::QueueVolume,
        Kind::QueueBuffers,
        Kind::QueueStart,
        Kind::WasapiEnumerator,
        Kind::WasapiDefaultEndpoint,
        Kind::WasapiEnumerateDevice,
        Kind::WasapiGetDevice,
        Kind::WasapiActivate,
        Kind::WasapiActivateClient,
        Kind::WasapiMixFormat,
        Kind::WasapiInitialize,
        Kind::WasapiCaptureClient,
        Kind::WasapiEventHandle,
        Kind::WasapiStartCapture,
        Kind::WasapiBufferSize,
        Kind::WasapiRenderClient,
        Kind::WasapiGetBuffer,
        Kind::WasapiStartRender,
        Kind::WasapiMonitorEnumerator,
        Kind::WasapiMonitorInitialize,
        Kind::WasapiMonitorRenderClient,
    ]
}

/// Every kind once, in the order of their declaration.
pub fn all() -> (r: Vec<Kind>)
    ensures
        r@ == all_kinds(),
{
    let mut out: Vec<Kind> = Vec::new();
    out.push(Kind::System);
    out.push(Kind::CapturedBySource);
    out.push(Kind::DeviceDisconnected);
    out.push(Kind::DeviceUnavailable);
    out.push(Kind::UnknownSource);
    out.push(Kind::Resampler);
    out.push(Kind::PulseUnavailable);
    out.push(Kind::ServerInfo);
    out.push(Kind::SourceInfo);
    out.push(Kind::SampleSpec);
    out.push(Kind::StreamCreate);
    out.push(Kind::StreamConnect);
    out.push(Kind::InvalidDeviceName);
    out.push(Kind::ScreenPermission);
    out.push(Kind::ScreenTimeout);
    out.push(Kind::MainDisplay);
    out.push(Kind::VideoStreamOutput);
    out.push(Kind::AudioStreamOutput);
    out.push(Kind::CaptureStart);
    out.push(Kind::StreamStopped);
    out.push(Kind::WaitingForDevice);
    out.push(Kind::QueueCreate);
    out.push(Kind::OutputUnavailable);
    out.push(Kind::QueueVolume);
    out.push(Kind::QueueBuffers);
    out.push(Kind::QueueStart);
    out.push(Kind::WasapiEnumerator);
    out.push(Kind::WasapiDefaultEndpoint);
    out.push(Kind::WasapiEnumerateDevice);
    out.push(Kind::WasapiGetDevice);
    out.push(Kind::WasapiActivate);
    out.push(Kind::WasapiActivateClient);
    out.push(Kind::WasapiMixFormat);
    out.push(Kind::WasapiInitialize);
    out.push(Kind::WasapiCaptureClient);
    out.push(Kind::WasapiEventHandle);
    out.push(Kind::WasapiStartCapture);
    out.push(Kind::WasapiBufferSize);
    out.push(Kind::WasapiRenderClient);
    out.push(Kind::WasapiGetBuffer);
    out.push(Kind::WasapiStartRender);
    out.push(Kind::WasapiMonitorEnumerator);
    out.push(Kind::WasapiMonitorInitialize);
    out.push(Kind::WasapiMonitorRenderClient);
    out
}

/// A number that tells the codes apart: it mixes the length of a code with
/// some of its letters.
spec fn mark(code: Seq<char>) -> int {
    let n = code.len() as int;
    n * 1000000 + code[0] as int + code[n - 1] as int * 200 + code[n - 5] as int * 37
}

/// The kind whose code has the given mark.
spec fn kind_of_mark(mark: int) -> Kind {
    if mark == 6026392 {
        Kind::System
    } else if mark == 16024406 {
        Kind::CapturedBySource
    } else if mark == 18023837 {
        Kind::DeviceDisconnected
    } else if mark == 17024296 {
        Kind::DeviceUnavailable
    } else if mark == 13024424 {
        Kind::UnknownSource
    } else if mark == 9026947 {
        Kind::Resampler
    } else if mark == 16024308 {
        Kind::PulseUnavailable
    } else if mark == 10026533 {
        Kind::ServerInfo
    } else if mark == 10026052 {
        Kind::SourceInfo
    } else if mark == 10023652 {
        Kind::SampleSpec
    } else if mark == 12024533 {
        Kind::StreamCreate
    } else if mark == 13027385 {
        Kind::StreamConnect
    } else if mark == 17024042 {
        Kind::InvalidDeviceName
    } else if mark == 16026370 {
        Kind::ScreenPermission
    } else if mark == 13027348 {
        Kind::ScreenTimeout
    } else if mark == 11028564 {
        Kind::MainDisplay
    } else if mark == 17027647 {
        Kind::VideoStreamOutput
    } else if mark == 17027626 {
        Kind::AudioStreamOutput
    } else if mark == 12026370 {
        Kind::CaptureStart
    } else if mark == 13024222 {
        Kind::StreamStopped
    } else if mark == 16024056 {
        Kind::WaitingForDevice
    } else if mark == 11024531 {
        Kind::QueueCreate
    } else if mark == 17024307 {
        Kind::OutputUnavailable
    } else if mark == 11024420 {
        Kind::QueueVolume
    } else if mark == 12026887 {
        Kind::QueueBuffers
    } else if mark == 10026384 {
        Kind::QueueStart
    } else if mark == 16027137 {
        Kind::WasapiEnumerator
    } else if mark == 21027463 {
        Kind::WasapiDefaultEndpoint
    } else if mark == 21024056 {
        Kind::WasapiEnumerateDevice
    } else if mark == 15024056 {
        Kind::WasapiGetDevice
    } else if mark == 14024204 {
        Kind::WasapiActivate
    } else if mark == 20027315 {
        Kind::WasapiActivateClient
    } else if mark == 15027426 {
        Kind::WasapiMixFormat
    } else if mark == 16023908 {
        Kind::WasapiInitialize
    } else if mark == 19027315 {
        Kind::WasapiCaptureClient
    } else if mark == 17023908 {
        Kind::WasapiEventHandle
    } else if mark == 18024463 {
        Kind::WasapiStartCapture
    } else if mark == 16024537 {
        Kind::WasapiBufferSize
    } else if mark == 18027315 {
        Kind::WasapiRenderClient
    } else if mark == 15027248 {
        Kind::WasapiGetBuffer
    } else if mark == 17026656 {
        Kind::WasapiStartRender
    } else if mark == 23027137 {
        Kind::WasapiMonitorEnumerator
    } else if mark == 23023908 {
        Kind::WasapiMonitorInitialize
    } else if mark == 25027315 {
        Kind::WasapiMonitorRenderClient
    } else {
        Kind::System
    }
}

proof fn lemma_mark(kind: Kind)
    ensures
        kind_of_mark(mark(kind.code_of()@)) == kind,
{
    match kind {
        Kind::System => {
            reveal_strlit("system");
        },
        Kind::CapturedBySource => {
            reveal_strlit("capturedBySource");
        },
        Kind::DeviceDisconnected => {
            reveal_strlit("deviceDisconnected");
        },
        Kind::DeviceUnavailable => {
            reveal_strlit("deviceUnavailable");
        },
        Kind::UnknownSource => {
            reveal_strlit("unknownSource");
        },
        Kind::Resampler => {
            reveal_strlit("resampler");
        },
        Kind::PulseUnavailable => {
            reveal_strlit("pulseUnavailable");
        },
        Kind::ServerInfo => {
            reveal_strlit("serverInfo");
        },
        Kind::SourceInfo => {
            reveal_strlit("sourceInfo");
        },
        Kind::SampleSpec => {
            reveal_strlit("sampleSpec");
        },
        Kind::StreamCreate => {
            reveal_strlit("streamCreate");
        },
        Kind::StreamConnect => {
            reveal_strlit("streamConnect");
        },
        Kind::InvalidDeviceName => {
            reveal_strlit("invalidDeviceName");
        },
        Kind::ScreenPermission => {
            reveal_strlit("screenPermission");
        },
        Kind::ScreenTimeout => {
            reveal_strlit("screenTimeout");
        },
        Kind::MainDisplay => {
            reveal_strlit("mainDisplay");
        },
        Kind::VideoStreamOutput => {
            reveal_strlit("videoStreamOutput");
        },
        Kind::AudioStreamOutput => {
            reveal_strlit("audioStreamOutput");
        },
        Kind::CaptureStart => {
            reveal_strlit("captureStart");
        },
        Kind::StreamStopped => {
            reveal_strlit("streamStopped");
        },
        Kind::WaitingForDevice => {
            reveal_strlit("waitingForDevice");
        },
        Kind::QueueCreate => {
            reveal_strlit("queueCreate");
        },
        Kind::OutputUnavailable => {
            reveal_strlit("outputUnavailable");
        },
        Kind::QueueVolume => {
            reveal_strlit("queueVolume");
        },
        Kind::QueueBuffers => {
            reveal_strlit("queueBuffers");
        },
        Kind::QueueStart => {
            reveal_strlit("queueStart");
        },
        Kind::WasapiEnumerator => {
            reveal_strlit("wasapiEnumerator");
        },
        Kind::WasapiDefaultEndpoint => {
            reveal_strlit("wasapiDefaultEndpoint");
        },
        Kind::WasapiEnumerateDevice => {
            reveal_strlit("wasapiEnumerateDevice");
        },
        Kind::WasapiGetDevice => {
            reveal_strlit("wasapiGetDevice");
        },
        Kind::WasapiActivate => {
            reveal_strlit("wasapiActivate");
        },
        Kind::WasapiActivateClient => {
            reveal_strlit("wasapiActivateClient");
        },
        Kind::WasapiMixFormat => {
            reveal_strlit("wasapiMixFormat");
        },
        Kind::WasapiInitialize => {
            reveal_strlit("wasapiInitialize");
        },
        Kind::WasapiCaptureClient => {
            reveal_strlit("wasapiCaptureClient");
        },
        Kind::WasapiEventHandle => {
            reveal_strlit("wasapiEventHandle");
        },
        Kind::WasapiStartCapture => {
            reveal_strlit("wasapiStartCapture");
        },
        Kind::WasapiBufferSize => {
            reveal_strlit("wasapiBufferSize");
        },
        Kind::WasapiRenderClient => {
            reveal_strlit("wasapiRenderClient");
        },
        Kind::WasapiGetBuffer => {
            reveal_strlit("wasapiGetBuffer");
        },
        Kind::WasapiStartRender => {
            reveal_strlit("wasapiStartRender");
        },
        Kind::WasapiMonitorEnumerator => {
            reveal_strlit("wasapiMonitorEnumerator");
        },
        Kind::WasapiMonitorInitialize => {
            reveal_strlit("wasapiMonitorInitialize");
        },
        Kind::WasapiMonitorRenderClient => {
            reveal_strlit("wasapiMonitorRenderClient");
        },
    }
}

/// No two kinds share a code, so a code names its kind.
pub proof fn law_codes_are_unique(a: Kind, b: Kind)
    requires
        a.code_of()@ == b.code_of()@,
    ensures
        a == b,
{
    lemma_mark(a);
    lemma_mark(b);
}

/// The list of all kinds leaves none out.
pub proof fn law_every_kind_is_listed(kind: Kind)
    ensures
        all_kinds().contains(kind),
{
    let all = all_kinds();
    match kind {
        Kind::System => assert(all[0] == kind),
        Kind::CapturedBySource => assert(all[1] == kind),
        Kind::DeviceDisconnected => assert(all[2] == kind),
        Kind::DeviceUnavailable => assert(all[3] == kind),
        Kind::UnknownSource => assert(all[4] == kind),
        Kind::Resampler => assert(all[5] == kind),
        Kind::PulseUnavailable => assert(all[6] == kind),
        Kind::ServerInfo => assert(all[7] == kind),
        Kind::SourceInfo => assert(all[8] == kind),
        Kind::SampleSpec => assert(all[9] == kind),
        Kind::StreamCreate => assert(all[10] == kind),
        Kind::StreamConnect => assert(all[11] == kind),
        Kind::InvalidDeviceName => assert(all[12] == kind),
        Kind::ScreenPermission => assert(all[13] == kind),
        Kind::ScreenTimeout => assert(all[14] == kind),
        Kind::MainDisplay => assert(all[15] == kind),
        Kind::VideoStreamOutput => assert(all[16] == kind),
        Kind::AudioStreamOutput => assert(all[17] == kind),
        Kind::CaptureStart => assert(all[18] == kind),
        Kind::StreamStopped => assert(all[19] == kind),
        Kind::WaitingForDevice => assert(all[20] == kind),
        Kind::QueueCreate => assert(all[21] == kind),
        Kind::OutputUnavailable => assert(all[22] == kind),
        Kind::QueueVolume => assert(all[23] == kind),
        Kind::QueueBuffers => assert(all[24] == kind),
        Kind::QueueStart => assert(all[25] == kind),
        Kind::WasapiEnumerator => assert(all[26] == kind),
        Kind::WasapiDefaultEndpoint => assert(all[27] == kind),
        Kind::WasapiEnumerateDevice => assert(all[28] == kind),
        Kind::WasapiGetDevice => assert(all[29] == kind),
        Kind::WasapiActivate => assert(all[30] == kind),
        Kind::WasapiActivateClient => assert(all[31] == kind),
        Kind::WasapiMixFormat => assert(all[32] == kind),
        Kind::WasapiInitialize => assert(all[33] == kind),
        Kind::WasapiCaptureClient => assert(all[34] == kind),
        Kind::WasapiEventHandle => assert(all[35] == kind),
        Kind::WasapiStartCapture => assert(all[36] == kind),
        Kind::WasapiBufferSize => assert(all[37] == kind),
        Kind::WasapiRenderClient => assert(all[38] == kind),
        Kind::WasapiGetBuffer => assert(all[39] == kind),
        Kind::WasapiStartRender => assert(all[40] == kind),
        Kind::WasapiMonitorEnumerator => assert(all[41] == kind),
        Kind::WasapiMonitorInitialize => assert(all[42] == kind),
        Kind::WasapiMonitorRenderClient => assert(all[43] == kind),
    }
}

/// A message keeps its kind and its detail, and is written as the wording of
/// its kind, followed by the detail where there is one. Its code is that of its
/// kind, and names no other.
pub proof fn law_a_message_is_written_with_its_detail(
    kind: Kind,
    detail: &str,
    m: Message,
    line: String,
    plain_line: String,
    text: &'static str,
    code: &'static str,
    other: Kind,
    other_code: &'static str,
)
    requires
        call_ensures(Kind::detail, (kind, detail), m),
        call_ensures(Message::to_string, (&m,), line),
        call_ensures(Message::to_string, (&(Message { kind, detail: None }),), plain_line),
        call_ensures(Kind::text, (kind,), text),
        call_ensures(Message::code, (&m,), code),
        call_ensures(Kind::code, (other,), other_code),
    ensures
        m.kind == kind,
        m.detail matches Some(d) && d@ == detail@,
        plain_line@ == text@,
        text@.len() > 0 ==> line@ == text@ + ": "@ + detail@,
        text@.len() == 0 ==> line@ == detail@,
        code@ == other_code@ <==> kind == other,
{
    if code@ == other_code@ {
        law_codes_are_unique(kind, other);
    }
}

/// The list of all kinds has each of them, in as many places as there are
/// kinds.
pub proof fn law_the_list_has_each_kind_once(r: Vec<Kind>, kind: Kind)
    requires
        call_ensures(all, (), r),
    ensures
        r@.contains(kind),
        r@.len() == 44,
{
    law_every_kind_is_listed(kind);
}

} // verus!
