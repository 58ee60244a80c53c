//! The audio engine: one source and its monitors.
//!
//! [`session`] decides what is opened, closed and tried again; [`hub`] is the
//! source side that sits between a capture and its monitors. The backends
//! ([`wasapi`], [`coreaudio`] and [`pulse`]) hold the decisions of each
//! system's audio interface.

pub mod coreaudio;
pub mod drift;
pub mod format;
pub mod hub;
pub mod laws;
pub mod message;
pub mod pulse;
pub mod session;
pub mod swr;
pub mod tally;
pub mod volume;
pub mod wasapi;

use crate::audio::hub::{AudioCallback, CallbackId};
use crate::audio::message::Message;
use crate::float;
use crate::text::{decimal, decimal_text, padded, padded_text, same};
use vstd::prelude::*;

verus! {

/// Id of the system default output, as a source.
pub const DESKTOP: &'static str = "desktop";

pub const DESKTOP_NAME: &'static str = "Default output";

#[derive(Debug, Clone, Copy, PartialEq, Eq, Structural)]
pub enum SourceKind {
    Desktop,
    Loopback,
    Capture,
}

#[derive(Debug, PartialEq, Eq)]
pub struct SourceInfo {
    pub id: String,
    pub name: String,
    pub kind: SourceKind,
    pub is_default: bool,
    /// Output this source records, which therefore cannot be a destination.
    pub captures_output: Option<String>,
}

#[derive(Debug, PartialEq, Eq)]
pub struct OutputInfo {
    pub id: String,
    pub name: String,
    pub is_default: bool,
}

#[derive(Debug, PartialEq, Eq)]
pub struct DeviceList {
    pub sources: Vec<SourceInfo>,
    pub outputs: Vec<OutputInfo>,
}

impl Default for DeviceList {
    fn default() -> (r: Self)
        ensures
            r.sources@.len() == 0,
            r.outputs@.len() == 0,
    {
        DeviceList { sources: Vec::new(), outputs: Vec::new() }
    }
}

/// The first output marked as the default one.
pub open spec fn default_output(outputs: Seq<OutputInfo>) -> Option<OutputInfo>
    decreases outputs.len(),
{
    if outputs.len() == 0 {
        None
    } else if outputs[0].is_default {
        Some(outputs[0])
    } else {
        default_output(outputs.drop_first())
    }
}

/// The name of the default output, which tells the device it points to.
pub open spec fn desktop_name(device: Seq<char>) -> Seq<char> {
    DESKTOP_NAME@ + " ("@ + device + ")"@
}

/// Whether `after` is the source `before` once the default output has been
/// named: the desktop source tells the device it points to, if there is one.
pub open spec fn named_source(
    before: SourceInfo,
    after: SourceInfo,
    default: Option<OutputInfo>,
) -> bool {
    &&& after.id == before.id
    &&& after.kind == before.kind
    &&& after.is_default == before.is_default
    &&& after.captures_output == before.captures_output
    &&& match default {
        Some(device) if before.id@ == DESKTOP@ => after.name@ == desktop_name(device.name@),
        _ => after.name == before.name,
    }
}

fn find_default(outputs: &Vec<OutputInfo>) -> (r: Option<usize>)
    ensures
        match r {
            Some(i) => i < outputs@.len() && default_output(outputs@) == Some(outputs@[i as int]),
            None => default_output(outputs@) is None,
        },
{
    let mut i: usize = 0;
    assert(outputs@.skip(0) =~= outputs@);
    while i < outputs.len()
        invariant
            i <= outputs@.len(),
            default_output(outputs@) == default_output(outputs@.skip(i as int)),
        decreases outputs@.len() - i,
    {
        if outputs[i].is_default {
            return Some(i);
        }
        assert(outputs@.skip(i as int).drop_first() =~= outputs@.skip(i + 1));
        i += 1;
    }
    None
}

/// The devices a backend lists, with the default output named after the
/// device it currently points to.
pub fn enumerate(devices: Result<DeviceList, Message>) -> (r: Result<DeviceList, Message>)
    ensures
        match devices {
            Err(e) => r == Err::<DeviceList, Message>(e),
            Ok(list) => r matches Ok(named) && {
                &&& named.outputs == list.outputs
                &&& named.sources@.len() == list.sources@.len()
                &&& forall|i: int|
                    0 <= i < list.sources@.len() ==> named_source(
                        #[trigger] list.sources@[i],
                        named.sources@[i],
                        default_output(list.outputs@),
                    )
            },
        },
{
    let list = match devices {
        Ok(list) => list,
        Err(e) => {
            return Err(e);
        },
    };
    let found = find_default(&list.outputs);
    let default = match found {
        Some(i) => i,
        None => {
            return Ok(list);
        },
    };
    let mut name = DESKTOP_NAME.to_owned();
    name.append(" (");
    name.append(list.outputs[default].name.as_str());
    name.append(")");
    let mut sources = list.sources;
    let ghost before = sources@;
    let mut i: usize = 0;
    while i < sources.len()
        invariant
            i <= sources@.len(),
            sources@.len() == before.len(),
            default < list.outputs@.len(),
            default_output(list.outputs@) == Some(list.outputs@[default as int]),
            name@ == desktop_name(list.outputs@[default as int].name@),
            forall|k: int|
                0 <= k < i ==> named_source(
                    #[trigger] before[k],
                    sources@[k],
                    default_output(list.outputs@),
                ),
            forall|k: int| i <= k < before.len() ==> sources@[k] == #[trigger] before[k],
        decreases sources@.len() - i,
    {
        assert(sources@[i as int] == before[i as int]);
        if same(sources[i].id.as_str(), DESKTOP) {
            let source = SourceInfo {
                id: sources[i].id.clone(),
                name: name.clone(),
                kind: sources[i].kind,
                is_default: sources[i].is_default,
                captures_output: match &sources[i].captures_output {
                    Some(output) => Some(output.clone()),
                    None => None,
                },
            };
            sources[i] = source;
        }
        i += 1;
    }
    Ok(DeviceList { sources, outputs: list.outputs })
}

/// State of the running capture, reported by the platform.
#[derive(Debug, PartialEq, Eq)]
pub enum CaptureState {
    Starting,
    Active { format: String },
    /// The capture retries on its own (WASAPI).
    Retrying(Message),
    /// The capture stopped for good; the session restarts it.
    Failed(Message),
}

impl Clone for CaptureState {
    fn clone(&self) -> (r: Self)
        ensures
            r == *self,
    {
        match self {
            CaptureState::Starting => CaptureState::Starting,
            CaptureState::Active { format } => CaptureState::Active { format: format.clone() },
            CaptureState::Retrying(why) => CaptureState::Retrying(why.clone()),
            CaptureState::Failed(why) => CaptureState::Failed(why.clone()),
        }
    }
}

/// A running source capture. Dropping it stops the capture.
pub trait Capture: Send {
    fn state(&self) -> CaptureState;

    /// The system default output changed. Returns true when the capture
    /// must be reopened by the session; a capture that does not say so itself
    /// stays open.
    fn default_output_changed(&self) -> (reopen: bool)
        default_ensures
            !reopen,
    {
        false
    }
}

#[derive(Debug, PartialEq, Eq)]
pub enum MonitorState {
    Playing { format: String },
    /// The device is being reopened after a failure.
    Reconnecting(Message),
}

impl Clone for MonitorState {
    fn clone(&self) -> (r: Self)
        ensures
            r == *self,
    {
        match self {
            MonitorState::Playing { format } => MonitorState::Playing { format: format.clone() },
            MonitorState::Reconnecting(why) => MonitorState::Reconnecting(why.clone()),
        }
    }
}

/// A monitor is a callback of the source that reports on its device.
pub trait Monitor: AudioCallback {
    fn state(&self) -> MonitorState;
}

/// What opening a monitor came to.
pub enum MonitorInit {
    /// The monitor plays: the number of its callback and what it reports.
    Active { callback: CallbackId, state: MonitorState },
    /// The output is the one the source records.
    Ignored,
}

/// Notifications from the operating system.
#[derive(Debug, Clone, Copy, PartialEq, Eq, Structural)]
pub enum SystemEvent {
    DefaultOutputChanged,
    DevicesChanged,
}

#[derive(Debug, PartialEq, Eq)]
pub struct OutputSpec {
    pub id: String,
    /// Linear gain, as a pattern.
    pub gain: u32,
    pub muted: bool,
}

impl Clone for OutputSpec {
    fn clone(&self) -> (r: Self)
        ensures
            r == *self,
    {
        OutputSpec { id: self.id.clone(), gain: self.gain, muted: self.muted }
    }
}

#[derive(Debug, PartialEq, Eq)]
pub struct EngineConfig {
    pub source: String,
    pub outputs: Vec<OutputSpec>,
}

#[derive(Debug, Clone, Copy, PartialEq, Eq, Structural)]
pub enum NodeState {
    Idle,
    Starting,
    Playing,
    Error,
    Blocked,
}

#[derive(Debug, Clone, PartialEq, Eq)]
pub struct SourceStatus {
    pub state: NodeState,
    pub message: Option<Message>,
    pub format: Option<String>,
    /// Peak since the last read, as a pattern.
    pub peak: u32,
}

#[derive(Debug, Clone, PartialEq, Eq)]
pub struct OutputStatus {
    pub id: String,
    pub state: NodeState,
    pub message: Option<Message>,
    pub format: Option<String>,
    /// Peak since the last read, as a pattern.
    pub peak: u32,
}

#[derive(Debug, Clone, PartialEq, Eq)]
pub struct Status {
    pub running: bool,
    pub source: SourceStatus,
    pub outputs: Vec<OutputStatus>,
    /// Bumped every time the system says the devices changed. The panel
    /// watches it instead of listing the devices on a timer.
    pub devices_revision: u64,
}

pub(crate) fn copy_text(text: &Option<String>) -> (r: Option<String>)
    ensures
        r == *text,
{
    match text {
        Some(t) => Some(t.clone()),
        None => None,
    }
}

fn copy_message(message: &Option<Message>) -> (r: Option<Message>)
    ensures
        r == *message,
{
    match message {
        Some(m) => Some(m.clone()),
        None => None,
    }
}

impl Status {
    /// Nothing is running.
    pub open spec fn stopped(&self) -> bool {
        &&& !self.running
        &&& self.source.state is Idle
        &&& self.source.message is None
        &&& self.source.format is None
        &&& self.source.peak == 0
        &&& self.outputs@.len() == 0
    }

    /// Whether reading the status gives `shown` and leaves `after`: the peak of
    /// the source is taken, and each output's own is what was read of it where
    /// it has controls to read it from.
    pub open spec fn reads(
        &self,
        peaks: Seq<Option<u32>>,
        shown: &Status,
        after: &Status,
    ) -> bool {
        &&& shown.running == self.running
        &&& shown.source == self.source
        &&& shown.devices_revision == self.devices_revision
        &&& shown.outputs@ == Seq::new(
            self.outputs@.len(),
            |i: int|
                OutputStatus {
                    peak: if peaks[i] is Some {
                        peaks[i]->0
                    } else {
                        self.outputs@[i].peak
                    },
                    ..self.outputs@[i]
                },
        )
        &&& *after == Status {
            source: SourceStatus { peak: float::ZERO, ..self.source },
            ..*self
        }
    }

    /// Reads the status, with the peaks accumulated since the last read:
    /// `peaks` are those of the outputs. The peak of the source starts over
    /// from silence.
    pub fn take_peaks(&mut self, peaks: &Vec<Option<u32>>) -> (shown: Status)
        requires
            peaks@.len() == old(self).outputs@.len(),
        ensures
            old(self).reads(peaks@, &shown, final(self)),
    {
        let mut outputs: Vec<OutputStatus> = Vec::new();
        let mut i: usize = 0;
        while i < peaks.len()
            invariant
                i <= peaks@.len(),
                *self == *old(self),
                peaks@.len() == self.outputs@.len(),
                outputs@.len() == i,
                forall|k: int|
                    0 <= k < i ==> #[trigger] outputs@[k] == (OutputStatus {
                        peak: if peaks@[k] is Some {
                            peaks@[k]->0
                        } else {
                            self.outputs@[k].peak
                        },
                        ..self.outputs@[k]
                    }),
            decreases peaks@.len() - i,
        {
            let o = &self.outputs[i];
            outputs.push(
                OutputStatus {
                    id: o.id.clone(),
                    state: o.state,
                    message: copy_message(&o.message),
                    format: copy_text(&o.format),
                    peak: match peaks[i] {
                        Some(peak) => peak,
                        None => o.peak,
                    },
                },
            );
            i += 1;
        }
        let source = SourceStatus {
            state: self.source.state,
            message: copy_message(&self.source.message),
            format: copy_text(&self.source.format),
            peak: self.source.peak,
        };
        self.source.peak = float::ZERO;
        assert(outputs@ =~= Seq::new(
            old(self).outputs@.len(),
            |i: int|
                OutputStatus {
                    peak: if peaks@[i] is Some {
                        peaks@[i]->0
                    } else {
                        old(self).outputs@[i].peak
                    },
                    ..old(self).outputs@[i]
                },
        ));
        Status {
            running: self.running,
            source,
            outputs,
            devices_revision: self.devices_revision,
        }
    }
}

impl Default for Status {
    fn default() -> (r: Self)
        ensures
            r.stopped(),
            r.devices_revision == 0,
    {
        Status {
            running: false,
            source: SourceStatus { state: NodeState::Idle, message: None, format: None, peak: 0 },
            outputs: Vec::new(),
            devices_revision: 0,
        }
    }
}

/// Largest backlog a monitor keeps. Past this the device is not draining
/// what the source produces, and keeping the audio would only raise the
/// latency for good.
pub const MAX_BACKLOG_USEC: u64 = 400_000;

/// Rates from here on are not written to the last digit in kilohertz.
pub const EXACT_RATES: u32 = 16_384_000;

/// A rate in kilohertz: up to three decimals, as many as it takes.
pub open spec fn kilohertz(rate: nat) -> Seq<char> {
    let rest = rate % 1000;
    if rest == 0 {
        decimal(rate / 1000)
    } else if rest % 100 == 0 {
        decimal(rate / 1000) + "."@ + padded(rest / 100, 1)
    } else if rest % 10 == 0 {
        decimal(rate / 1000) + "."@ + padded(rest / 10, 2)
    } else {
        decimal(rate / 1000) + "."@ + padded(rest, 3)
    }
}

/// The name of a layout with that many channels.
pub open spec fn layout_name(channels: nat) -> Seq<char> {
    if channels == 1 {
        "mono"@
    } else if channels == 2 {
        "stereo"@
    } else if channels == 3 {
        "2.1"@
    } else if channels == 4 {
        "4.0"@
    } else if channels == 5 {
        "4.1"@
    } else if channels == 6 {
        "5.1"@
    } else if channels == 8 {
        "7.1"@
    } else {
        decimal(channels) + " channels"@
    }
}

pub fn kilohertz_text(rate: u32) -> (r: String)
    ensures
        r@ == kilohertz(rate as nat),
{
    let rest: u64 = (rate % 1000) as u64;
    let mut out = decimal_text((rate / 1000) as u64);
    if rest != 0 {
        out.append(".");
        if rest % 100 == 0 {
            out.append(padded_text(rest / 100, 1).as_str());
        } else if rest % 10 == 0 {
            out.append(padded_text(rest / 10, 2).as_str());
        } else {
            out.append(padded_text(rest, 3).as_str());
        }
    }
    out
}

fn layout_text(channels: usize) -> (r: String)
    ensures
        r@ == layout_name(channels as nat),
{
    match channels {
        1 => "mono".to_owned(),
        2 => "stereo".to_owned(),
        3 => "2.1".to_owned(),
        4 => "4.0".to_owned(),
        5 => "4.1".to_owned(),
        6 => "5.1".to_owned(),
        8 => "7.1".to_owned(),
        _ => {
            let mut out = decimal_text(channels as u64);
            out.append(" channels");
            out
        },
    }
}

/// What is shown of a format.
pub open spec fn description(rate: nat, channels: nat) -> Seq<char> {
    kilohertz(rate) + " kHz, "@ + layout_name(channels)
}

/// Human readable format: a rate in kilohertz and the name of a layout.
pub fn describe_as(khz: &str, channels: usize) -> (r: String)
    ensures
        r@ == khz@ + " kHz, "@ + layout_name(channels as nat),
{
    let mut out = khz.to_owned();
    out.append(" kHz, ");
    out.append(layout_text(channels).as_str());
    out
}

/// Human readable format, shared by the platform modules.
pub fn describe(rate: u32, channels: usize) -> (r: String)
    requires
        rate < EXACT_RATES,
    ensures
        r@ == description(rate as nat, channels as nat),
{
    describe_as(kilohertz_text(rate).as_str(), channels)
}

proof fn lemma_default_output(outputs: Seq<OutputInfo>, i: int)
    requires
        0 <= i < outputs.len(),
        outputs[i].is_default,
        forall|k: int| 0 <= k < i ==> !(#[trigger] outputs[k]).is_default,
    ensures
        default_output(outputs) == Some(outputs[i]),
    decreases i,
{
    if i > 0 {
        assert(!outputs[0].is_default);
        let rest = outputs.drop_first();
        assert forall|k: int| 0 <= k < i - 1 implies !(#[trigger] rest[k]).is_default by {
            assert(!outputs[k + 1].is_default);
        }
        lemma_default_output(rest, i - 1);
    }
}

/// The default output is named after the device it points to, the first that
/// is marked; every other source keeps its name, and nothing else changes.
pub proof fn law_the_default_output_is_named(
    list: DeviceList,
    r: Result<DeviceList, Message>,
    i: int,
    k: int,
)
    requires
        call_ensures(enumerate, (Ok::<DeviceList, Message>(list),), r),
        0 <= i < list.outputs@.len(),
        list.outputs@[i].is_default,
        forall|j: int| 0 <= j < i ==> !(#[trigger] list.outputs@[j]).is_default,
        0 <= k < list.sources@.len(),
    ensures
        r matches Ok(named) && {
            let before = list.sources@[k];
            let after = named.sources@[k];
            &&& named.outputs == list.outputs
            &&& named.sources@.len() == list.sources@.len()
            &&& after.id == before.id
            &&& after.kind == before.kind
            &&& after.is_default == before.is_default
            &&& after.captures_output == before.captures_output
            &&& before.id@ == "desktop"@ ==> after.name@ == "Default output ("@
                + list.outputs@[i].name@ + ")"@
            &&& before.id@ != "desktop"@ ==> after.name == before.name
        },
{
    lemma_default_output(list.outputs@, i);
    assert(named_source(list.sources@[k], r->Ok_0.sources@[k], Some(list.outputs@[i])));
    reveal_strlit("Default output (");
    reveal_strlit("Default output");
    reveal_strlit(" (");
    assert("Default output"@ + " ("@ =~= "Default output ("@);
}

/// Without a default output the list stays as it is, and an error is handed
/// on.
pub proof fn law_a_list_without_a_default_stays(
    devices: Result<DeviceList, Message>,
    r: Result<DeviceList, Message>,
    k: int,
)
    requires
        call_ensures(enumerate, (devices,), r),
        devices matches Ok(list) ==> 0 <= k < list.sources@.len() && forall|j: int|
            0 <= j < list.outputs@.len() ==> !(#[trigger] list.outputs@[j]).is_default,
    ensures
        devices matches Err(e) ==> (r matches Err(told) && told == e),
        devices matches Ok(list) ==> (r matches Ok(named) && named.sources@[k] == list.sources@[k]
            && named.outputs == list.outputs),
{
    if let Ok(list) = devices {
        lemma_no_default(list.outputs@);
        assert(named_source(list.sources@[k], r->Ok_0.sources@[k], None));
    }
}

proof fn lemma_no_default(outputs: Seq<OutputInfo>)
    requires
        forall|j: int| 0 <= j < outputs.len() ==> !(#[trigger] outputs[j]).is_default,
    ensures
        default_output(outputs) is None,
    decreases outputs.len(),
{
    if outputs.len() > 0 {
        assert(!outputs[0].is_default);
        let rest = outputs.drop_first();
        assert forall|j: int| 0 <= j < rest.len() implies !(#[trigger] rest[j]).is_default by {
            assert(!outputs[j + 1].is_default);
        }
        lemma_no_default(rest);
    }
}

/// A read shows everything as it is, with each output's peak as it was read of
/// its controls; the peak of the source is shown by one read alone.
pub proof fn law_a_read_takes_the_peak_of_the_source(
    status: &mut Status,
    peaks: &Vec<Option<u32>>,
    shown: Status,
    next: &mut Status,
    again: Status,
    i: int,
)
    requires
        call_ensures(Status::take_peaks, (status, peaks), shown),
        *old(next) == *final(status),
        call_ensures(Status::take_peaks, (next, peaks), again),
        0 <= i < old(status).outputs@.len(),
    ensures
        shown.source == old(status).source,
        again.source.peak == 0,
        again.source.state == shown.source.state,
        again.source.message == shown.source.message,
        again.source.format == shown.source.format,
        shown.running == old(status).running,
        shown.devices_revision == old(status).devices_revision,
        shown.outputs@.len() == old(status).outputs@.len(),
        shown.outputs@[i].id == old(status).outputs@[i].id,
        shown.outputs@[i].state == old(status).outputs@[i].state,
        shown.outputs@[i].message == old(status).outputs@[i].message,
        shown.outputs@[i].format == old(status).outputs@[i].format,
        peaks@[i] matches Some(peak) ==> shown.outputs@[i].peak == peak,
        peaks@[i] is None ==> shown.outputs@[i].peak == old(status).outputs@[i].peak,
        again.outputs@ == shown.outputs@,
{
}

/// A rate is shown in kilohertz, with as many decimals as it takes and no
/// more.
pub proof fn law_a_rate_is_shown_in_kilohertz(
    rate: u32,
    whole: nat,
    tenths: nat,
    hundredths: nat,
    thousandths: nat,
    r: String,
)
    requires
        call_ensures(kilohertz_text, (rate,), r),
        rate == 1000 * whole + 100 * tenths + 10 * hundredths + thousandths,
        tenths < 10 && hundredths < 10 && thousandths < 10,
    ensures
        thousandths > 0 ==> r@ == decimal(whole) + "."@ + padded(
            100 * tenths + 10 * hundredths + thousandths,
            3,
        ),
        thousandths == 0 && hundredths > 0 ==> r@ == decimal(whole) + "."@ + padded(
            10 * tenths + hundredths,
            2,
        ),
        thousandths == 0 && hundredths == 0 && tenths > 0 ==> r@ == decimal(whole) + "."@ + padded(
            tenths,
            1,
        ),
        thousandths == 0 && hundredths == 0 && tenths == 0 ==> r@ == decimal(whole),
{
    let n = rate as nat;
    let rest = 100 * tenths + 10 * hundredths + thousandths;
    assert(n / 1000 == whole && n % 1000 == rest);
    assert(rest % 100 == 10 * hundredths + thousandths);
    assert(rest % 10 == thousandths);
    assert(rest / 100 == tenths);
    assert(rest / 10 == 10 * tenths + hundredths);
}

/// A format is shown by its rate and the name of its layout.
pub proof fn law_a_format_is_shown_by_rate_and_layout(
    rate: u32,
    channels: usize,
    khz: String,
    r: String,
)
    requires
        call_ensures(kilohertz_text, (rate,), khz),
        call_ensures(describe, (rate, channels), r),
    ensures
        channels == 1 ==> r@ == khz@ + " kHz, "@ + "mono"@,
        channels == 2 ==> r@ == khz@ + " kHz, "@ + "stereo"@,
        channels == 3 ==> r@ == khz@ + " kHz, "@ + "2.1"@,
        channels == 4 ==> r@ == khz@ + " kHz, "@ + "4.0"@,
        channels == 5 ==> r@ == khz@ + " kHz, "@ + "4.1"@,
        channels == 6 ==> r@ == khz@ + " kHz, "@ + "5.1"@,
        channels == 8 ==> r@ == khz@ + " kHz, "@ + "7.1"@,
        channels == 0 || channels == 7 || channels > 8 ==> r@ == khz@ + " kHz, "@ + (decimal(
            channels as nat,
        ) + " channels"@),
{
}

} // verus!
