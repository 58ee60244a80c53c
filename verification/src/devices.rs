//! Device lists and sources of the queue-based engine.
//!
//! "Desktop audio" is a loopback capture of the default output. Where the
//! system captures outputs directly, the output itself is opened; elsewhere
//! it is the monitor source of the output.

use crate::text::{same, starts_with, strip_prefix, strip_suffix};
use crate::text;
use vstd::prelude::*;

verus! {

/// Special id: the system default output, captured in loopback.
pub const DESKTOP: &'static str = "desktop";

/// Prefix of a loopback capture of a specific output.
pub const LOOPBACK_PREFIX: &'static str = "loopback:";

/// Suffix of PulseAudio monitor sources.
pub const MONITOR_SUFFIX: &'static str = ".monitor";

/// Prefix of the ids of PulseAudio devices.
pub const PULSE_PREFIX: &'static str = "pulseaudio:";

#[derive(Debug, Clone, Copy, PartialEq, Eq, Structural)]
pub enum SourceKind {
    Desktop,
    Loopback,
    Capture,
}

#[derive(Debug, PartialEq, Eq)]
pub struct SourceInfo {
    pub id: String,
    pub name: String,
    pub kind: SourceKind,
    pub is_default: bool,
}

#[derive(Debug, PartialEq, Eq)]
pub struct OutputInfo {
    pub id: String,
    pub name: String,
    pub is_default: bool,
}

#[derive(Debug, PartialEq, Eq)]
pub struct DeviceList {
    pub sources: Vec<SourceInfo>,
    pub outputs: Vec<OutputInfo>,
    /// Output currently captured by "Desktop audio".
    pub desktop_output: Option<String>,
}

/// What the host tells of one device.
#[derive(Debug, PartialEq, Eq)]
pub struct DeviceFacts {
    /// A device without an id is left out.
    pub id: Option<String>,
    pub name: String,
    pub is_input: bool,
    pub is_output: bool,
}

/// Whether an id is that of a PulseAudio monitor source.
pub open spec fn is_monitor(id: Seq<char>) -> bool {
    text::occurs_at(id, MONITOR_SUFFIX@, id.len() - MONITOR_SUFFIX@.len()) && text::occurs_at(
        id,
        PULSE_PREFIX@,
        0,
    )
}

/// Sink watched by a PulseAudio `xxx.monitor` source.
pub fn monitored_output(source_id: &str) -> (r: Option<String>)
    ensures
        match r {
            Some(sink) => is_monitor(source_id@) && source_id@ == sink@ + MONITOR_SUFFIX@,
            None => !is_monitor(source_id@),
        },
{
    match strip_suffix(source_id, MONITOR_SUFFIX) {
        Some(sink) => if starts_with(source_id, PULSE_PREFIX) {
            Some(sink)
        } else {
            None
        },
        None => None,
    }
}

fn names(wanted: &Option<String>, id: &str) -> (r: bool)
    ensures
        r == (wanted matches Some(w) && w@ == id@),
{
    match wanted {
        Some(w) => same(w.as_str(), id),
        None => false,
    }
}

/// Whether an id is the default one.
pub open spec fn is_default_id(default: Option<String>, id: Seq<char>) -> bool {
    default matches Some(d) && d@ == id
}

/// Whether `s` is the loopback source of an output.
pub open spec fn loopback_of(s: SourceInfo, d: DeviceFacts, default_out: Option<String>) -> bool {
    &&& s.id@ == LOOPBACK_PREFIX@ + d.id->0@
    &&& s.name == d.name
    &&& s.kind is Loopback
    &&& s.is_default == is_default_id(default_out, d.id->0@)
}

/// Whether `s` is the source of an input.
pub open spec fn input_of(s: SourceInfo, d: DeviceFacts, default_in: Option<String>) -> bool {
    &&& s.id == d.id->0
    &&& s.name == d.name
    &&& s.kind == if is_monitor(d.id->0@) {
        SourceKind::Loopback
    } else {
        SourceKind::Capture
    }
    &&& s.is_default == is_default_id(default_in, d.id->0@)
}

/// Whether `o` is the entry of an output.
pub open spec fn output_of(o: OutputInfo, d: DeviceFacts, default_out: Option<String>) -> bool {
    &&& o.id == d.id->0
    &&& o.name == d.name
    &&& o.is_default == is_default_id(default_out, d.id->0@)
}

/// Whether a device is listed as an output.
pub open spec fn plays(d: DeviceFacts) -> bool {
    d.id is Some && d.is_output
}

/// Whether a device is listed as an input of its own.
pub open spec fn captures(d: DeviceFacts) -> bool {
    d.id is Some && d.is_input && !is_monitor(d.id->0@)
}

/// Whether a device is an input that records an output.
pub open spec fn monitors(d: DeviceFacts) -> bool {
    d.id is Some && d.is_input && is_monitor(d.id->0@)
}

/// Whether `outputs` lists the outputs among the devices, in their order.
pub open spec fn lists_outputs(
    outputs: Seq<OutputInfo>,
    devices: Seq<DeviceFacts>,
    default_out: Option<String>,
) -> bool
    decreases devices.len(),
{
    if devices.len() == 0 {
        outputs.len() == 0
    } else if plays(devices.last()) {
        &&& outputs.len() > 0
        &&& output_of(outputs.last(), devices.last(), default_out)
        &&& lists_outputs(outputs.drop_last(), devices.drop_last(), default_out)
    } else {
        lists_outputs(outputs, devices.drop_last(), default_out)
    }
}

/// Whether `sources` lists the inputs that record nothing else, in order.
pub open spec fn lists_captures(
    sources: Seq<SourceInfo>,
    devices: Seq<DeviceFacts>,
    default_in: Option<String>,
) -> bool
    decreases devices.len(),
{
    if devices.len() == 0 {
        sources.len() == 0
    } else if captures(devices.last()) {
        &&& sources.len() > 0
        &&& input_of(sources.last(), devices.last(), default_in)
        &&& lists_captures(sources.drop_last(), devices.drop_last(), default_in)
    } else {
        lists_captures(sources, devices.drop_last(), default_in)
    }
}

/// Whether `sources` lists what records an output, device by device: the
/// outputs themselves where the system captures them directly, then the
/// monitor sources.
pub open spec fn lists_loopbacks(
    sources: Seq<SourceInfo>,
    devices: Seq<DeviceFacts>,
    native: bool,
    default_out: Option<String>,
    default_in: Option<String>,
) -> bool
    decreases devices.len(),
{
    if devices.len() == 0 {
        sources.len() == 0
    } else {
        let d = devices.last();
        let front = devices.drop_last();
        if monitors(d) {
            &&& sources.len() > 0
            &&& input_of(sources.last(), d, default_in)
            &&& if native && plays(d) {
                &&& sources.len() > 1
                &&& loopback_of(sources.drop_last().last(), d, default_out)
                &&& lists_loopbacks(
                    sources.drop_last().drop_last(),
                    front,
                    native,
                    default_out,
                    default_in,
                )
            } else {
                lists_loopbacks(sources.drop_last(), front, native, default_out, default_in)
            }
        } else if native && plays(d) {
            &&& sources.len() > 0
            &&& loopback_of(sources.last(), d, default_out)
            &&& lists_loopbacks(sources.drop_last(), front, native, default_out, default_in)
        } else {
            lists_loopbacks(sources, front, native, default_out, default_in)
        }
    }
}

/// Whether `s` is the entry of the desktop source.
pub open spec fn is_desktop(s: SourceInfo) -> bool {
    s.id@ == DESKTOP@ && s.name@ == "Desktop audio"@ && s.kind is Desktop && !s.is_default
}

/// The device list made of what the host tells: the desktop source first,
/// then what records an output, then the other inputs. `native` tells whether
/// the system captures outputs directly.
pub fn enumerate(
    devices: &Vec<DeviceFacts>,
    default_out: &Option<String>,
    default_in: &Option<String>,
    native: bool,
) -> (list: DeviceList)
    ensures
        list.desktop_output == *default_out,
        lists_outputs(list.outputs@, devices@, *default_out),
        exists|loopbacks: Seq<SourceInfo>, inputs: Seq<SourceInfo>|
            {
                &&& list.sources@.len() == 1 + loopbacks.len() + inputs.len()
                &&& is_desktop(list.sources@[0])
                &&& list.sources@.skip(1) == loopbacks + inputs
                &&& #[trigger] lists_loopbacks(
                    loopbacks,
                    devices@,
                    native,
                    *default_out,
                    *default_in,
                )
                &&& #[trigger] lists_captures(inputs, devices@, *default_in)
            },
{
    let mut outputs: Vec<OutputInfo> = Vec::new();
    let mut loopbacks: Vec<SourceInfo> = Vec::new();
    let mut inputs: Vec<SourceInfo> = Vec::new();
    let mut i: usize = 0;
    while i < devices.len()
        invariant
            i <= devices@.len(),
            lists_outputs(outputs@, devices@.take(i as int), *default_out),
            lists_loopbacks(
                loopbacks@,
                devices@.take(i as int),
                native,
                *default_out,
                *default_in,
            ),
            lists_captures(inputs@, devices@.take(i as int), *default_in),
        decreases devices@.len() - i,
    {
        let d = &devices[i];
        let ghost before = (outputs@, loopbacks@, inputs@);
        assert(devices@.take(i + 1).drop_last() =~= devices@.take(i as int));
        if let Some(id) = &d.id {
            let is_default_out = names(default_out, id.as_str());
            if d.is_output {
                if native {
                    let mut loopback = LOOPBACK_PREFIX.to_owned();
                    loopback.append(id.as_str());
                    loopbacks.push(
                        SourceInfo {
                            id: loopback,
                            name: d.name.clone(),
                            kind: SourceKind::Loopback,
                            is_default: is_default_out,
                        },
                    );
                    assert(loopbacks@.drop_last() =~= before.1);
                }
                outputs.push(
                    OutputInfo {
                        id: id.clone(),
                        name: d.name.clone(),
                        is_default: is_default_out,
                    },
                );
                assert(outputs@.drop_last() =~= before.0);
            }
            if d.is_input {
                let monitor = monitored_output(id.as_str()).is_some();
                let ghost middle = loopbacks@;
                let info = SourceInfo {
                    id: id.clone(),
                    name: d.name.clone(),
                    kind: if monitor {
                        SourceKind::Loopback
                    } else {
                        SourceKind::Capture
                    },
                    is_default: names(default_in, id.as_str()),
                };
                if monitor {
                    loopbacks.push(info);
                    assert(loopbacks@.drop_last() =~= middle);
                } else {
                    inputs.push(info);
                    assert(inputs@.drop_last() =~= before.2);
                }
            }
        }
        i += 1;
    }
    assert(devices@.take(i as int) =~= devices@);
    let ghost all_loopbacks = loopbacks@;
    let ghost all_inputs = inputs@;
    let mut sources: Vec<SourceInfo> = Vec::new();
    sources.push(
        SourceInfo {
            id: DESKTOP.to_owned(),
            name: "Desktop audio".to_owned(),
            kind: SourceKind::Desktop,
            is_default: false,
        },
    );
    sources.append(&mut loopbacks);
    sources.append(&mut inputs);
    assert(sources@.skip(1) =~= all_loopbacks + all_inputs);
    let desktop_output = match default_out {
        Some(id) => Some(id.clone()),
        None => None,
    };
    DeviceList { sources, outputs, desktop_output }
}

/// What has to be opened for a source.
#[derive(Debug, PartialEq, Eq)]
pub struct SourceChoice {
    /// The device to open.
    pub device: String,
    /// Output captured in loopback, never to be used as a destination.
    pub loopback_of: Option<String>,
    /// Whether the device is an output, opened to record what it plays.
    pub from_output: bool,
}

/// What the source `id` opens, `default_out` being the default output.
pub open spec fn chosen(
    r: Result<SourceChoice, String>,
    id: Seq<char>,
    default_out: Option<String>,
    native: bool,
) -> bool {
    if id == DESKTOP@ {
        match default_out {
            Some(out) => r matches Ok(c) && {
                &&& c.device@ == if native {
                    out@
                } else {
                    out@ + MONITOR_SUFFIX@
                }
                &&& c.loopback_of == Some(out)
                &&& c.from_output == native
            },
            None => r matches Err(e) && e@ == "No default output"@,
        }
    } else if text::occurs_at(id, LOOPBACK_PREFIX@, 0) {
        r matches Ok(c) && {
            &&& id == LOOPBACK_PREFIX@ + c.device@
            &&& c.loopback_of matches Some(out) && out@ == c.device@
            &&& c.from_output
        }
    } else {
        r matches Ok(c) && {
            &&& c.device@ == id
            &&& c.loopback_of is Some == is_monitor(id)
            &&& c.loopback_of matches Some(out) ==> id == out@ + MONITOR_SUFFIX@
            &&& !c.from_output
        }
    }
}

/// Finds out what the source `id` opens.
pub fn resolve_source(id: &str, default_out: &Option<String>, native: bool) -> (r: Result<
    SourceChoice,
    String,
>)
    ensures
        chosen(r, id@, *default_out, native),
{
    if same(id, DESKTOP) {
        match default_out {
            Some(out) => {
                if native {
                    Ok(
                        SourceChoice {
                            device: out.clone(),
                            loopback_of: Some(out.clone()),
                            from_output: true,
                        },
                    )
                } else {
                    let mut monitor = out.clone();
                    monitor.append(MONITOR_SUFFIX);
                    Ok(
                        SourceChoice {
                            device: monitor,
                            loopback_of: Some(out.clone()),
                            from_output: false,
                        },
                    )
                }
            },
            None => Err("No default output".to_owned()),
        }
    } else {
        match strip_prefix(id, LOOPBACK_PREFIX) {
            Some(out) => {
                let device = out.clone();
                Ok(SourceChoice { device, loopback_of: Some(out), from_output: true })
            },
            None => Ok(
                SourceChoice {
                    device: id.to_owned(),
                    loopback_of: monitored_output(id),
                    from_output: false,
                },
            ),
        }
    }
}

/// Why a chosen device is not there: where the desktop is captured through a
/// monitor source, its absence has a cause of its own.
pub fn missing_device(id: &str, native: bool, why: &str) -> (r: String)
    ensures
        r@ == if id@ == DESKTOP@ && !native {
            "Desktop capture needs PulseAudio or PipeWire"@
        } else {
            why@
        },
{
    if same(id, DESKTOP) && !native {
        "Desktop capture needs PulseAudio or PipeWire".to_owned()
    } else {
        why.to_owned()
    }
}

/// A source that records an output names it, so the output can be kept from
/// being a destination; a source of its own names none.
pub proof fn law_a_recorded_output_is_named(
    r: Result<SourceChoice, String>,
    id: Seq<char>,
    default_out: Option<String>,
    native: bool,
)
    requires
        chosen(r, id, default_out, native),
        r is Ok,
    ensures
        r->Ok_0.from_output ==> (r->Ok_0.loopback_of matches Some(out) && out@
            == r->Ok_0.device@),
        r->Ok_0.loopback_of is Some <==> (id == DESKTOP@ || text::occurs_at(
            id,
            LOOPBACK_PREFIX@,
            0,
        ) || is_monitor(id)),
{
}

/// A monitor source watches the sink that it is named after; whatever is not
/// one watches nothing.
pub proof fn law_a_monitor_is_named_after_its_sink(
    sink: Seq<char>,
    id: &str,
    r: Option<String>,
)
    requires
        id@ == "pulseaudio:"@ + sink + ".monitor"@,
        call_ensures(monitored_output, (id,), r),
    ensures
        r matches Some(out) && out@ == "pulseaudio:"@ + sink,
{
    reveal_strlit("pulseaudio:");
    reveal_strlit(".monitor");
    let n = id@.len() - 8;
    assert(id@.subrange(n, n + 8) =~= MONITOR_SUFFIX@);
    assert(id@.subrange(0, 11) =~= PULSE_PREFIX@);
    let out = r->0@;
    assert(out =~= (out + MONITOR_SUFFIX@).take(n));
    assert("pulseaudio:"@ + sink =~= id@.take(n));
}

/// An id that does not end like a monitor, or is not one of PulseAudio, watches
/// nothing.
pub proof fn law_no_other_source_is_a_monitor(id: &str, r: Option<String>)
    requires
        call_ensures(monitored_output, (id,), r),
        r is Some,
    ensures
        r->0@ + ".monitor"@ == id@,
        id@.len() >= 11 && id@.take(11) == "pulseaudio:"@,
{
    reveal_strlit("pulseaudio:");
    assert(id@.take(11) =~= id@.subrange(0, 11));
}

proof fn lemma_output_listed(
    outputs: Seq<OutputInfo>,
    devices: Seq<DeviceFacts>,
    default_out: Option<String>,
    j: int,
) -> (n: int)
    requires
        lists_outputs(outputs, devices, default_out),
        0 <= j < devices.len(),
        plays(devices[j]),
    ensures
        0 <= n < outputs.len(),
        output_of(outputs[n], devices[j], default_out),
    decreases devices.len(),
{
    if j == devices.len() - 1 {
        outputs.len() - 1
    } else if plays(devices.last()) {
        lemma_output_listed(outputs.drop_last(), devices.drop_last(), default_out, j)
    } else {
        lemma_output_listed(outputs, devices.drop_last(), default_out, j)
    }
}

proof fn lemma_capture_listed(
    sources: Seq<SourceInfo>,
    devices: Seq<DeviceFacts>,
    default_in: Option<String>,
    j: int,
) -> (n: int)
    requires
        lists_captures(sources, devices, default_in),
        0 <= j < devices.len(),
        captures(devices[j]),
    ensures
        0 <= n < sources.len(),
        input_of(sources[n], devices[j], default_in),
    decreases devices.len(),
{
    if j == devices.len() - 1 {
        sources.len() - 1
    } else if captures(devices.last()) {
        lemma_capture_listed(sources.drop_last(), devices.drop_last(), default_in, j)
    } else {
        lemma_capture_listed(sources, devices.drop_last(), default_in, j)
    }
}

proof fn lemma_loopback_listed(
    sources: Seq<SourceInfo>,
    devices: Seq<DeviceFacts>,
    native: bool,
    default_out: Option<String>,
    default_in: Option<String>,
    j: int,
    monitor: bool,
) -> (n: int)
    requires
        lists_loopbacks(sources, devices, native, default_out, default_in),
        0 <= j < devices.len(),
        monitor ==> monitors(devices[j]),
        !monitor ==> native && plays(devices[j]),
    ensures
        0 <= n < sources.len(),
        monitor ==> input_of(sources[n], devices[j], default_in),
        !monitor ==> loopback_of(sources[n], devices[j], default_out),
    decreases devices.len(),
{
    let d = devices.last();
    let front = devices.drop_last();
    let taken = (if monitors(d) {
        1int
    } else {
        0
    }) + (if native && plays(d) {
        1int
    } else {
        0
    });
    if j == devices.len() - 1 {
        if !monitor && monitors(d) {
            assert(sources.drop_last().last() == sources[sources.len() - 2]);
            sources.len() - 2
        } else {
            sources.len() - 1
        }
    } else if taken == 2 {
        lemma_loopback_listed(
            sources.drop_last().drop_last(),
            front,
            native,
            default_out,
            default_in,
            j,
            monitor,
        )
    } else if taken == 1 {
        lemma_loopback_listed(
            sources.drop_last(),
            front,
            native,
            default_out,
            default_in,
            j,
            monitor,
        )
    } else {
        lemma_loopback_listed(sources, front, native, default_out, default_in, j, monitor)
    }
}

/// Each device with an id is listed: where it plays as an output, and as what
/// records it where the system captures outputs directly; where it records as a
/// source of its own id. The default ones are marked, and the desktop stands
/// first.
pub proof fn law_every_device_is_listed(
    devices: &Vec<DeviceFacts>,
    default_out: &Option<String>,
    default_in: &Option<String>,
    native: bool,
    list: DeviceList,
    j: int,
)
    requires
        call_ensures(enumerate, (devices, default_out, default_in, native), list),
        0 <= j < devices@.len(),
        devices@[j].id is Some,
    ensures
        list.desktop_output == *default_out,
        list.sources@.len() >= 1,
        list.sources@[0].id@ == DESKTOP@ && list.sources@[0].kind is Desktop,
        list.sources@[0].name@ == "Desktop audio"@ && !list.sources@[0].is_default,
        ({
            let d = devices@[j];
            let id = d.id->0;
            &&& d.is_output ==> exists|n: int|
                0 <= n < list.outputs@.len() && {
                    let o = #[trigger] list.outputs@[n];
                    &&& o.id == id && o.name == d.name
                    &&& o.is_default <==> *default_out is Some && (*default_out)->0@ == id@
                }
            &&& d.is_output && native ==> exists|n: int|
                1 <= n < list.sources@.len() && {
                    let s = #[trigger] list.sources@[n];
                    &&& s.id@ == LOOPBACK_PREFIX@ + id@ && s.name == d.name
                    &&& s.kind is Loopback
                    &&& s.is_default <==> *default_out is Some && (*default_out)->0@ == id@
                }
            &&& d.is_input ==> exists|n: int|
                1 <= n < list.sources@.len() && {
                    let s = #[trigger] list.sources@[n];
                    &&& s.id == id && s.name == d.name
                    &&& s.kind is Loopback <==> is_monitor(id@)
                    &&& s.kind is Capture <==> !is_monitor(id@)
                    &&& s.is_default <==> *default_in is Some && (*default_in)->0@ == id@
                }
        }),
{
    let d = devices@[j];
    let (loopbacks, inputs) = choose|loopbacks: Seq<SourceInfo>, inputs: Seq<SourceInfo>|
        {
            &&& list.sources@.len() == 1 + loopbacks.len() + inputs.len()
            &&& is_desktop(list.sources@[0])
            &&& list.sources@.skip(1) == loopbacks + inputs
            &&& #[trigger] lists_loopbacks(
                loopbacks,
                devices@,
                native,
                *default_out,
                *default_in,
            )
            &&& #[trigger] lists_captures(inputs, devices@, *default_in)
        };
    let all = list.sources@.skip(1);
    if d.is_output {
        let n = lemma_output_listed(list.outputs@, devices@, *default_out, j);
        if native {
            let n = lemma_loopback_listed(
                loopbacks,
                devices@,
                native,
                *default_out,
                *default_in,
                j,
                false,
            );
            assert(all[n] == loopbacks[n]);
            assert(list.sources@[n + 1] == all[n]);
        }
    }
    if d.is_input {
        if is_monitor(d.id->0@) {
            let n = lemma_loopback_listed(
                loopbacks,
                devices@,
                native,
                *default_out,
                *default_in,
                j,
                true,
            );
            assert(all[n] == loopbacks[n]);
            assert(list.sources@[n + 1] == all[n]);
        } else {
            let n = lemma_capture_listed(inputs, devices@, *default_in, j);
            let k = loopbacks.len() + n;
            assert(all[k] == inputs[n]);
            assert(list.sources@[k + 1] == all[k]);
        }
    }
}

/// Desktop audio opens the default output, or its monitor where the system does
/// not capture outputs directly; the source that records an output opens that
/// output; any other opens the device of its id. The output that is recorded is
/// named, and no other.
pub proof fn law_a_source_opens_what_it_names(
    id: &str,
    default_out: &Option<String>,
    native: bool,
    r: Result<SourceChoice, String>,
    output: Seq<char>,
    watched: Option<String>,
)
    requires
        call_ensures(resolve_source, (id, default_out, native), r),
        call_ensures(monitored_output, (id,), watched),
    ensures
        r is Err <==> id@ == "desktop"@ && *default_out is None,
        r matches Err(e) ==> e@ == "No default output"@,
        id@ == "desktop"@ && *default_out is Some ==> {
            let out = (*default_out)->0@;
            &&& native ==> r->Ok_0.device@ == out && r->Ok_0.from_output
            &&& !native ==> r->Ok_0.device@ == out + ".monitor"@ && !r->Ok_0.from_output
            &&& r->Ok_0.loopback_of matches Some(recorded) && recorded@ == out
        },
        id@ == LOOPBACK_PREFIX@ + output ==> {
            &&& r->Ok_0.device@ == output && r->Ok_0.from_output
            &&& r->Ok_0.loopback_of matches Some(recorded) && recorded@ == output
        },
        id@ != "desktop"@ && !text::occurs_at(id@, LOOPBACK_PREFIX@, 0) ==> {
            &&& r->Ok_0.device@ == id@ && !r->Ok_0.from_output
            &&& r->Ok_0.loopback_of is Some <==> watched is Some
            &&& r->Ok_0.loopback_of is Some ==> r->Ok_0.loopback_of->0@ == watched->0@
        },
{
    reveal_strlit("desktop");
    reveal_strlit("loopback:");
    reveal_strlit(".monitor");
    let n = LOOPBACK_PREFIX@.len() as int;
    if id@ == LOOPBACK_PREFIX@ + output {
        assert(id@[0] == 'l');
        assert(id@.subrange(0, n) =~= LOOPBACK_PREFIX@);
        let device = r->Ok_0.device@;
        assert(device =~= (LOOPBACK_PREFIX@ + device).skip(n));
        assert(output =~= (LOOPBACK_PREFIX@ + output).skip(n));
    }
    if watched is Some && r is Ok && r->Ok_0.loopback_of is Some {
        let a = watched->0@;
        let b = r->Ok_0.loopback_of->0@;
        if a + MONITOR_SUFFIX@ == b + MONITOR_SUFFIX@ {
            assert(a.len() == b.len());
            assert(a =~= (a + MONITOR_SUFFIX@).take(a.len() as int));
            assert(b =~= (b + MONITOR_SUFFIX@).take(a.len() as int));
        }
    }
}

/// Where the desktop cannot be captured the cause is named; of any other device
/// it is said what the host says.
pub proof fn law_a_missing_device_is_explained(id: &str, native: bool, why: &str, r: String)
    requires
        call_ensures(missing_device, (id, native, why), r),
    ensures
        id@ != "desktop"@ || native ==> r@ == why@,
        id@ == "desktop"@ && !native ==> r@ == "Desktop capture needs PulseAudio or PipeWire"@,
{
}

} // verus!
