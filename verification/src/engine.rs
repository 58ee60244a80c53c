//! The queue-based engine: one capture, any number of outputs, one
//! supervisor.
//!
//! A [`Supervisor`] rebuilds whatever fails every three seconds and follows
//! the default output when the source is desktop audio. One round of it goes
//! like this: [`Supervisor::begin_tick`] says what to do first, the answers
//! are handed back, and once there is a capture
//! [`Supervisor::output_step`] goes through the outputs. The commands for the
//! capture thread go out last, with [`Supervisor::send_all`].
//!
//! Times are nanoseconds of one monotonic clock.

use crate::audio::session::configured;
use crate::audio::{copy_text, kilohertz, kilohertz_text, OutputSpec, EXACT_RATES};
use crate::devices::DESKTOP;
use crate::dsp::{pushable, push_frames, PipeFormat, PlayState};
use crate::ring::{
    new_commands, pop_command, push_command, room, sent, space, waiting, written, CaptureCmd,
};
use crate::text::{decimal, decimal_text, same};
use rtrb::{Consumer, Producer};
use vstd::prelude::*;

verus! {

pub const RECONNECT_INTERVAL: u64 = 3_000_000_000;

pub const DEFAULT_POLL: u64 = 2_000_000_000;

pub const TICK: u64 = 250_000_000;

pub const MAX_OUTPUTS: usize = 64;

/// The least latency an output is given, in source frames.
pub const MIN_TARGET: usize = 64;

#[derive(Debug, PartialEq, Eq)]
pub struct EngineConfig {
    pub source: String,
    pub outputs: Vec<OutputSpec>,
    pub latency_ms: u32,
}

#[derive(Debug, Clone, Copy, PartialEq, Eq, Structural)]
pub enum NodeState {
    Idle,
    Starting,
    Buffering,
    Playing,
    Error,
    Blocked,
}

#[derive(Debug, Clone, PartialEq, Eq)]
pub struct SourceStatus {
    pub state: NodeState,
    pub message: Option<String>,
    pub format: Option<String>,
    /// Peak since the last read, as a pattern.
    pub peak: u32,
}

#[derive(Debug, Clone, PartialEq, Eq)]
pub struct OutputStatus {
    pub id: String,
    pub state: NodeState,
    pub message: Option<String>,
    pub format: Option<String>,
    /// Peak since the last read, as a pattern.
    pub peak: u32,
}

#[derive(Debug, Clone, PartialEq, Eq)]
pub struct Status {
    pub running: bool,
    pub source: SourceStatus,
    pub outputs: Vec<OutputStatus>,
}

impl Default for Status {
    fn default() -> (r: Self)
        ensures
            r.stopped(),
    {
        Status {
            running: false,
            source: SourceStatus { state: NodeState::Idle, message: None, format: None, peak: 0 },
            outputs: Vec::new(),
        }
    }
}

impl Status {
    /// Nothing is running.
    pub open spec fn stopped(&self) -> bool {
        &&& !self.running
        &&& self.source == SourceStatus {
            state: NodeState::Idle,
            message: None,
            format: None,
            peak: 0,
        }
        &&& self.outputs@.len() == 0
    }
}

fn same_text(a: &Option<String>, b: &Option<String>) -> (r: bool)
    ensures
        r == same_option(*a, *b),
{
    match (a, b) {
        (Some(x), Some(y)) => same(x.as_str(), y.as_str()),
        (None, None) => true,
        _ => false,
    }
}

/// Whether two optional texts are the same.
pub open spec fn same_option(a: Option<String>, b: Option<String>) -> bool {
    match (a, b) {
        (Some(x), Some(y)) => x@ == y@,
        (None, None) => true,
        _ => false,
    }
}

/// The end of a reconnection delay that begins now.
pub open spec fn reconnect_at(now: u64) -> u64 {
    if now + RECONNECT_INTERVAL <= u64::MAX {
        (now + RECONNECT_INTERVAL) as u64
    } else {
        u64::MAX
    }
}

fn after_interval(now: u64) -> (r: u64)
    ensures
        r == reconnect_at(now),
{
    if now <= u64::MAX - RECONNECT_INTERVAL {
        now + RECONNECT_INTERVAL
    } else {
        u64::MAX
    }
}

/// A running capture.
pub struct Capture {
    pub cmds: Producer<CaptureCmd>,
    pub rate: u32,
    pub channels: usize,
    /// Output captured in loopback.
    pub loopback_of: Option<String>,
    /// Human readable format.
    pub format: String,
}

/// What a capture is, and what it has been told.
pub struct CaptureView {
    pub rate: u32,
    pub channels: usize,
    pub loopback_of: Option<String>,
    pub format: String,
    pub sent: Seq<CaptureCmd>,
    /// The commands that its queue is known to have room for.
    pub space: nat,
}

impl View for Capture {
    type V = CaptureView;

    open spec fn view(&self) -> CaptureView {
        CaptureView {
            rate: self.rate,
            channels: self.channels,
            loopback_of: self.loopback_of,
            format: self.format,
            sent: sent(self.cmds),
            space: space(self.cmds),
        }
    }
}

impl Capture {
    /// A capture and the end of its command queue that its thread reads.
    pub fn new(
        rate: u32,
        channels: usize,
        loopback_of: Option<String>,
        format: String,
    ) -> (r: (Capture, Consumer<CaptureCmd>))
        ensures
            r.0@ == (CaptureView {
                rate,
                channels,
                loopback_of,
                format,
                sent: Seq::empty(),
                space: (MAX_OUTPUTS * 2) as nat,
            }),
            waiting(r.1) == Seq::<CaptureCmd>::empty(),
    {
        let (cmds, receiver) = new_commands(MAX_OUTPUTS * 2);
        (Capture { cmds, rate, channels, loopback_of, format }, receiver)
    }
}

/// An output and what became of it.
#[derive(Debug, PartialEq, Eq)]
pub struct OutputSlot {
    pub id: String,
    /// Whether its stream is open.
    pub open: bool,
    /// The key of its queue in the capture thread, zero for none.
    pub key: u64,
    pub error: Option<String>,
    pub format: Option<String>,
    /// Whether it is the captured device.
    pub blocked: bool,
    pub next_try: u64,
}

impl Clone for OutputSlot {
    fn clone(&self) -> (r: Self)
        ensures
            r == *self,
    {
        OutputSlot {
            id: self.id.clone(),
            open: self.open,
            key: self.key,
            error: copy_text(&self.error),
            format: copy_text(&self.format),
            blocked: self.blocked,
            next_try: self.next_try,
        }
    }
}

impl OutputSlot {
    /// An output that was not tried yet.
    pub open spec fn fresh(id: String, now: u64) -> OutputSlot {
        OutputSlot {
            id,
            open: false,
            key: 0,
            error: None,
            format: None,
            blocked: false,
            next_try: now,
        }
    }

    /// The output once its capture is gone: it may be tried at once.
    pub open spec fn orphaned(self, now: u64) -> OutputSlot {
        OutputSlot { open: false, key: 0, next_try: now, ..self }
    }

    /// The output once its stream has failed.
    pub open spec fn faulted(self, why: String, now: u64) -> OutputSlot {
        OutputSlot {
            open: false,
            key: 0,
            error: Some(why),
            next_try: reconnect_at(now),
            ..self
        }
    }

    /// The output once it is known whether it is the captured device: that
    /// one is never played on.
    pub open spec fn checked(self, captured: bool) -> OutputSlot {
        if captured && self.open {
            OutputSlot { blocked: true, open: false, key: 0, ..self }
        } else {
            OutputSlot { blocked: captured, ..self }
        }
    }

    /// The output once its stream is open.
    pub open spec fn opened(self, key: u64, format: String) -> OutputSlot {
        OutputSlot { open: true, key, error: None, format: Some(format), ..self }
    }

    /// The output once its stream could not be opened.
    pub open spec fn refused(self, why: String, now: u64) -> OutputSlot {
        OutputSlot { error: Some(why), next_try: reconnect_at(now), ..self }
    }
}

/// What comes next in a round.
#[derive(Debug, Clone, Copy, PartialEq, Eq, Structural)]
pub enum TickStep {
    /// The round is over.
    Done,
    /// Ask for the default output, then call [`Supervisor::default_known`].
    AskDefault,
    /// Open the source, then call [`Supervisor::capture_built`].
    BuildCapture,
    /// Go through the outputs.
    Outputs,
}

/// What to do for one output.
#[derive(Debug, PartialEq, Eq)]
pub enum OutputStep {
    /// Nothing.
    Skip,
    /// The queue of that key is fed no more.
    Remove { key: u64 },
    /// Open a stream, then call [`Supervisor::output_built`].
    Build { rate: u32, channels: usize, target_frames: usize },
}

pub struct Supervisor {
    pub cfg: Option<EngineConfig>,
    pub capture: Option<Capture>,
    pub outputs: Vec<OutputSlot>,
    pub next_source_try: u64,
    pub last_default_poll: u64,
    pub next_key: u64,
    pub source_error: Option<String>,
}

/// What a supervisor holds.
pub struct SupervisorView {
    pub cfg: Option<EngineConfig>,
    pub capture: Option<CaptureView>,
    pub outputs: Seq<OutputSlot>,
    pub next_source_try: u64,
    pub last_default_poll: u64,
    pub next_key: u64,
    pub source_error: Option<String>,
}

impl View for Supervisor {
    type V = SupervisorView;

    open spec fn view(&self) -> SupervisorView {
        SupervisorView {
            cfg: self.cfg,
            capture: match self.capture {
                Some(capture) => Some(capture@),
                None => None,
            },
            outputs: self.outputs@,
            next_source_try: self.next_source_try,
            last_default_poll: self.last_default_poll,
            next_key: self.next_key,
            source_error: self.source_error,
        }
    }
}

/// Whether there is a slot for an output of that id.
pub open spec fn has_slot(slots: Seq<OutputSlot>, id: Seq<char>) -> bool {
    exists|i: int| 0 <= i < slots.len() && (#[trigger] slots[i]).id@ == id
}

/// No output has two slots.
pub open spec fn distinct(slots: Seq<OutputSlot>) -> bool {
    forall|i: int, j: int|
        0 <= i < j < slots.len() ==> (#[trigger] slots[i]).id@ != (#[trigger] slots[j]).id@
}

/// The slots of the outputs that stay configured.
pub open spec fn kept(slots: Seq<OutputSlot>, outputs: Seq<OutputSpec>) -> Seq<OutputSlot>
    decreases slots.len(),
{
    if slots.len() == 0 {
        Seq::empty()
    } else if configured(outputs, slots.last().id@) {
        kept(slots.drop_last(), outputs).push(slots.last())
    } else {
        kept(slots.drop_last(), outputs)
    }
}

/// The keys of the outputs that are switched off.
pub open spec fn dropped_keys(slots: Seq<OutputSlot>, outputs: Seq<OutputSpec>) -> Seq<u64>
    decreases slots.len(),
{
    if slots.len() == 0 {
        Seq::empty()
    } else if configured(outputs, slots.last().id@) {
        dropped_keys(slots.drop_last(), outputs)
    } else {
        dropped_keys(slots.drop_last(), outputs).push(slots.last().key)
    }
}

/// The slots with a fresh one for every configured output that had none.
pub open spec fn with_fresh(
    slots: Seq<OutputSlot>,
    outputs: Seq<OutputSpec>,
    now: u64,
) -> Seq<OutputSlot>
    decreases outputs.len(),
{
    if outputs.len() == 0 {
        slots
    } else {
        let before = with_fresh(slots, outputs.drop_last(), now);
        if has_slot(before, outputs.last().id@) {
            before
        } else {
            before.push(OutputSlot::fresh(outputs.last().id, now))
        }
    }
}

/// The slots once the capture is gone.
pub open spec fn orphans(slots: Seq<OutputSlot>, now: u64) -> Seq<OutputSlot> {
    Seq::new(slots.len(), |i: int| slots[i].orphaned(now))
}

impl SupervisorView {
    /// A slot for each configured output and no other. A stream is only open
    /// while there is a capture, never on the captured device, and has a
    /// queue of its own; one that is closed has none.
    pub open spec fn wf(self) -> bool {
        &&& distinct(self.outputs)
        &&& self.next_key > 0
        &&& match self.cfg {
            None => self.capture is None && self.outputs.len() == 0,
            Some(cfg) => {
                &&& forall|i: int|
                    0 <= i < self.outputs.len() ==> configured(
                        cfg.outputs@,
                        (#[trigger] self.outputs[i]).id@,
                    )
                &&& forall|k: int|
                    0 <= k < cfg.outputs@.len() ==> has_slot(
                        self.outputs,
                        (#[trigger] cfg.outputs@[k]).id@,
                    )
            },
        }
        &&& forall|i: int| 0 <= i < self.outputs.len() ==> self.slot_ok(#[trigger] self.outputs[i])
        &&& forall|i: int, j: int|
            0 <= i < j < self.outputs.len() && self.outputs[i].open && self.outputs[j].open ==> (
            #[trigger] self.outputs[i]).key != (#[trigger] self.outputs[j]).key
    }

    /// What holds of every slot.
    pub open spec fn slot_ok(self, slot: OutputSlot) -> bool {
        if slot.open {
            &&& 0 < slot.key < self.next_key
            &&& self.capture matches Some(capture) && !(capture.loopback_of matches Some(out)
                && out@ == slot.id@)
        } else {
            slot.key == 0
        }
    }

    /// Everything is closed.
    pub open spec fn stopped(self) -> SupervisorView {
        SupervisorView {
            cfg: None,
            capture: None,
            outputs: Seq::empty(),
            source_error: None,
            ..self
        }
    }

    /// Whether a configuration needs everything built anew.
    pub open spec fn rebuilds(self, cfg: EngineConfig) -> bool {
        match self.cfg {
            None => true,
            Some(current) => current.source@ != cfg.source@ || current.latency_ms
                != cfg.latency_ms,
        }
    }

    pub open spec fn after_apply(self, cfg: EngineConfig, now: u64) -> SupervisorView {
        if self.rebuilds(cfg) {
            SupervisorView {
                cfg: Some(cfg),
                capture: None,
                outputs: with_fresh(Seq::empty(), cfg.outputs@, now),
                source_error: None,
                next_source_try: now,
                ..self
            }
        } else {
            SupervisorView {
                cfg: Some(cfg),
                outputs: with_fresh(kept(self.outputs, cfg.outputs@), cfg.outputs@, now),
                ..self
            }
        }
    }

    /// The queues a configuration stops feeding.
    pub open spec fn apply_keys(self, cfg: EngineConfig) -> Seq<u64> {
        if self.rebuilds(cfg) {
            Seq::empty()
        } else {
            dropped_keys(self.outputs, cfg.outputs@)
        }
    }

    /// The capture is gone, with every stream it fed; it is tried again after
    /// a while.
    pub open spec fn uncaptured(self, why: Option<String>, now: u64) -> SupervisorView {
        SupervisorView {
            capture: None,
            outputs: orphans(self.outputs, now),
            source_error: why,
            next_source_try: reconnect_at(now),
            ..self
        }
    }

    /// Once the capture thread has been told, `space` being the room its queue
    /// is known to have left.
    pub open spec fn told(self, cmds: Seq<CaptureCmd>, space: nat) -> SupervisorView {
        match self.capture {
            None => self,
            Some(capture) => SupervisorView {
                capture: Some(CaptureView { sent: capture.sent + cmds, space, ..capture }),
                ..self
            },
        }
    }

    /// Whether the queue is sure to take so many commands: there is none, or
    /// it is known to have room for them.
    pub open spec fn has_space(self, cmds: nat) -> bool {
        self.capture matches Some(capture) ==> cmds <= capture.space
    }

    /// Whether `after` is what the answer of the queue leads to: everything
    /// starts over where it was full.
    pub open spec fn settles(self, accepted: bool, now: u64, after: SupervisorView) -> bool {
        if accepted {
            after == self
        } else {
            exists|why: String|
                why@ == "Restarting the stream"@ && after == #[trigger] self.uncaptured(
                    Some(why),
                    now,
                )
        }
    }

    /// Once a failure of the capture has been noticed.
    pub open spec fn after_fault(self, fault: Option<String>, now: u64) -> SupervisorView {
        match (self.capture, fault) {
            (Some(_), Some(why)) => self.uncaptured(Some(why), now),
            _ => self,
        }
    }

    /// Whether it is time to ask for the default output: only while desktop
    /// audio is being captured.
    pub open spec fn polls_default(self, now: u64) -> bool {
        &&& self.cfg matches Some(cfg) && cfg.source@ == DESKTOP@
        &&& self.capture is Some
        &&& now >= self.last_default_poll + DEFAULT_POLL
    }

    /// What comes next once the capture has been looked at.
    pub open spec fn capture_step(self, now: u64) -> TickStep {
        if self.capture is Some {
            TickStep::Outputs
        } else if now < self.next_source_try {
            TickStep::Done
        } else {
            TickStep::BuildCapture
        }
    }

    pub open spec fn after_begin(self, fault: Option<String>, now: u64) -> SupervisorView {
        let view = self.after_fault(fault, now);
        if self.cfg is None {
            self
        } else if view.polls_default(now) {
            SupervisorView { last_default_poll: now, ..view }
        } else {
            view
        }
    }

    pub open spec fn begin_step(self, fault: Option<String>, now: u64) -> TickStep {
        let view = self.after_fault(fault, now);
        if self.cfg is None {
            TickStep::Done
        } else if view.polls_default(now) {
            TickStep::AskDefault
        } else {
            view.capture_step(now)
        }
    }

    /// Once the default output is known: a capture of another output is
    /// dropped, and opened again at once.
    pub open spec fn after_default(self, current: Option<String>, now: u64) -> SupervisorView {
        let captured = match self.capture {
            Some(capture) => capture.loopback_of,
            None => None,
        };
        if current is Some && !same_option(current, captured) {
            SupervisorView { next_source_try: now, ..self.uncaptured(None, now) }
        } else {
            self
        }
    }

    /// The latency kept in a queue, in source frames.
    pub open spec fn target_frames(self) -> int {
        self.capture->0.rate * self.cfg->0.latency_ms / 1000
    }

    /// Whether the output of a slot is the captured device.
    pub open spec fn is_captured(self, slot: OutputSlot) -> bool {
        self.capture matches Some(capture) && (capture.loopback_of matches Some(out) && out@
            == slot.id@)
    }

    /// What to do for an output, `fault` being a failure of its stream.
    pub open spec fn output_step(self, slot: OutputSlot, fault: Option<String>, now: u64) -> OutputStep {
        if fault is Some {
            OutputStep::Remove { key: slot.key }
        } else if self.is_captured(slot) {
            if slot.open {
                OutputStep::Remove { key: slot.key }
            } else {
                OutputStep::Skip
            }
        } else if slot.open || now < slot.next_try {
            OutputStep::Skip
        } else {
            OutputStep::Build {
                rate: self.capture->0.rate,
                channels: self.capture->0.channels,
                target_frames: self.target_frames() as usize,
            }
        }
    }

    /// The slot once its output has been looked at.
    pub open spec fn looked_at(self, slot: OutputSlot, fault: Option<String>, now: u64) -> OutputSlot {
        match fault {
            Some(why) => slot.faulted(why, now),
            None => slot.checked(self.is_captured(slot)),
        }
    }

    /// With another slot at `i`.
    pub open spec fn with_slot(self, i: int, slot: OutputSlot) -> SupervisorView {
        SupervisorView { outputs: self.outputs.update(i, slot), ..self }
    }
}

fn is_configured(outputs: &Vec<OutputSpec>, id: &str) -> (r: bool)
    ensures
        r == configured(outputs@, id@),
{
    let mut i: usize = 0;
    while i < outputs.len()
        invariant
            i <= outputs@.len(),
            forall|k: int| 0 <= k < i ==> (#[trigger] outputs@[k]).id@ != id@,
        decreases outputs@.len() - i,
    {
        if same(outputs[i].id.as_str(), id) {
            return true;
        }
        i += 1;
    }
    false
}

fn slot_index(slots: &Vec<OutputSlot>, id: &str) -> (r: Option<usize>)
    ensures
        match r {
            Some(i) => i < slots@.len() && slots@[i as int].id@ == id@,
            None => !has_slot(slots@, id@),
        },
{
    let mut i: usize = 0;
    while i < slots.len()
        invariant
            i <= slots@.len(),
            forall|k: int| 0 <= k < i ==> (#[trigger] slots@[k]).id@ != id@,
        decreases slots@.len() - i,
    {
        if same(slots[i].id.as_str(), id) {
            return Some(i);
        }
        i += 1;
    }
    None
}

fn keep_configured(slots: &Vec<OutputSlot>, outputs: &Vec<OutputSpec>) -> (r: (
    Vec<OutputSlot>,
    Vec<u64>,
))
    ensures
        r.0@ == kept(slots@, outputs@),
        r.1@ == dropped_keys(slots@, outputs@),
{
    let mut stay: Vec<OutputSlot> = Vec::new();
    let mut keys: Vec<u64> = Vec::new();
    let mut i: usize = 0;
    while i < slots.len()
        invariant
            i <= slots@.len(),
            stay@ == kept(slots@.take(i as int), outputs@),
            keys@ == dropped_keys(slots@.take(i as int), outputs@),
        decreases slots@.len() - i,
    {
        assert(slots@.take(i + 1).drop_last() =~= slots@.take(i as int));
        if is_configured(outputs, slots[i].id.as_str()) {
            stay.push(slots[i].clone());
        } else {
            keys.push(slots[i].key);
        }
        i += 1;
    }
    assert(slots@.take(i as int) =~= slots@);
    (stay, keys)
}

fn add_fresh(slots: &mut Vec<OutputSlot>, outputs: &Vec<OutputSpec>, now: u64)
    ensures
        final(slots)@ == with_fresh(old(slots)@, outputs@, now),
{
    let mut i: usize = 0;
    while i < outputs.len()
        invariant
            i <= outputs@.len(),
            slots@ == with_fresh(old(slots)@, outputs@.take(i as int), now),
        decreases outputs@.len() - i,
    {
        assert(outputs@.take(i + 1).drop_last() =~= outputs@.take(i as int));
        match slot_index(slots, outputs[i].id.as_str()) {
            Some(k) => {
                assert(has_slot(slots@, outputs@[i as int].id@));
            },
            None => {
                slots.push(
                    OutputSlot {
                        id: outputs[i].id.clone(),
                        open: false,
                        key: 0,
                        error: None,
                        format: None,
                        blocked: false,
                        next_try: now,
                    },
                );
            },
        }
        i += 1;
    }
    assert(outputs@.take(i as int) =~= outputs@);
}

proof fn lemma_kept(slots: Seq<OutputSlot>, outputs: Seq<OutputSpec>)
    ensures
        distinct(slots) ==> distinct(kept(slots, outputs)),
        forall|k: int|
            0 <= k < kept(slots, outputs).len() ==> configured(
                outputs,
                (#[trigger] kept(slots, outputs)[k]).id@,
            ) && exists|i: int|
                0 <= i < slots.len() && kept(slots, outputs)[k] == #[trigger] slots[i],
        forall|a: int, b: int|
            0 <= a < b < kept(slots, outputs).len() ==> exists|i: int, j: int|
                0 <= i < j < slots.len() && #[trigger] kept(slots, outputs)[a]
                    == #[trigger] slots[i] && #[trigger] kept(slots, outputs)[b]
                    == #[trigger] slots[j],
    decreases slots.len(),
{
    if slots.len() > 0 {
        let front = slots.drop_last();
        let some = kept(front, outputs);
        let all = kept(slots, outputs);
        lemma_kept(front, outputs);
        let last = slots.len() - 1;
        assert forall|k: int| 0 <= k < all.len() implies configured(
            outputs,
            (#[trigger] all[k]).id@,
        ) && exists|i: int| 0 <= i < slots.len() && all[k] == #[trigger] slots[i] by {
            if k < some.len() {
                assert(all[k] == some[k]);
                let i = choose|i: int| 0 <= i < front.len() && some[k] == #[trigger] front[i];
                assert(slots[i] == front[i]);
            } else {
                assert(all[k] == slots[last]);
            }
        }
        assert forall|a: int, b: int| 0 <= a < b < all.len() implies exists|i: int, j: int|
            0 <= i < j < slots.len() && #[trigger] all[a] == #[trigger] slots[i]
                && #[trigger] all[b] == #[trigger] slots[j] by {
            assert(all[a] == some[a]);
            if b < some.len() {
                assert(all[b] == some[b]);
                let (i, j) = choose|i: int, j: int|
                    0 <= i < j < front.len() && some[a] == #[trigger] front[i] && some[b]
                        == #[trigger] front[j];
                assert(slots[i] == front[i] && slots[j] == front[j]);
            } else {
                let i = choose|i: int| 0 <= i < front.len() && some[a] == #[trigger] front[i];
                assert(slots[i] == front[i]);
                assert(all[b] == slots[last]);
            }
        }
        if distinct(slots) {
            assert forall|a: int, b: int| 0 <= a < b < all.len() implies (#[trigger] all[a]).id@
                != (#[trigger] all[b]).id@ by {
                let (i, j) = choose|i: int, j: int|
                    0 <= i < j < slots.len() && all[a] == #[trigger] slots[i] && all[b]
                        == #[trigger] slots[j];
                assert(slots[i].id@ != slots[j].id@);
            }
        }
    }
}

proof fn lemma_with_fresh(slots: Seq<OutputSlot>, outputs: Seq<OutputSpec>, now: u64)
    ensures
        distinct(slots) ==> distinct(with_fresh(slots, outputs, now)),
        with_fresh(slots, outputs, now).len() >= slots.len(),
        forall|k: int|
            0 <= k < slots.len() ==> with_fresh(slots, outputs, now)[k] == #[trigger] slots[k],
        forall|k: int|
            slots.len() <= k < with_fresh(slots, outputs, now).len() ==> configured(
                outputs,
                (#[trigger] with_fresh(slots, outputs, now)[k]).id@,
            ) && !with_fresh(slots, outputs, now)[k].open && with_fresh(slots, outputs, now)[k].key
                == 0,
        forall|i: int|
            0 <= i < outputs.len() ==> has_slot(
                with_fresh(slots, outputs, now),
                (#[trigger] outputs[i]).id@,
            ),
    decreases outputs.len(),
{
    if outputs.len() > 0 {
        let front = outputs.drop_last();
        let before = with_fresh(slots, front, now);
        let all = with_fresh(slots, outputs, now);
        let last = outputs.len() - 1;
        lemma_with_fresh(slots, front, now);
        assert forall|k: int| slots.len() <= k < all.len() implies configured(
            outputs,
            (#[trigger] all[k]).id@,
        ) && !all[k].open && all[k].key == 0 by {
            if k < before.len() {
                assert(all[k] == before[k]);
                let j = choose|j: int|
                    0 <= j < front.len() && (#[trigger] front[j]).id@ == before[k].id@;
                assert(outputs[j] == front[j]);
            } else {
                assert(outputs[last].id@ == all[k].id@);
            }
        }
        assert forall|i: int| 0 <= i < outputs.len() implies has_slot(
            all,
            (#[trigger] outputs[i]).id@,
        ) by {
            if i < last {
                assert(front[i] == outputs[i]);
                assert(has_slot(before, front[i].id@));
                let k = choose|k: int|
                    0 <= k < before.len() && (#[trigger] before[k]).id@ == outputs[i].id@;
                assert(all[k] == before[k]);
            } else if has_slot(before, outputs[i].id@) {
                let k = choose|k: int|
                    0 <= k < before.len() && (#[trigger] before[k]).id@ == outputs[i].id@;
                assert(all[k] == before[k]);
            } else {
                assert(all[all.len() - 1].id@ == outputs[i].id@);
            }
        }
        if distinct(slots) {
            assert forall|a: int, b: int| 0 <= a < b < all.len() implies (#[trigger] all[a]).id@
                != (#[trigger] all[b]).id@ by {
                assert(all[a] == before[a]);
                if b < before.len() {
                    assert(all[b] == before[b]);
                }
            }
        }
    }
}

proof fn lemma_uncaptured(view: SupervisorView, why: Option<String>, now: u64)
    requires
        view.wf(),
    ensures
        view.uncaptured(why, now).wf(),
{
    let after = view.uncaptured(why, now);
    let slots = after.outputs;
    assert forall|i: int, j: int| 0 <= i < j < slots.len() implies (#[trigger] slots[i]).id@ != (
    #[trigger] slots[j]).id@ by {
        assert(view.outputs[i].id@ != view.outputs[j].id@);
    }
    if view.cfg is Some {
        let cfg = view.cfg->0;
        assert forall|i: int| 0 <= i < slots.len() implies configured(
            cfg.outputs@,
            (#[trigger] slots[i]).id@,
        ) by {
            assert(configured(cfg.outputs@, view.outputs[i].id@));
        }
        assert forall|k: int| 0 <= k < cfg.outputs@.len() implies has_slot(
            slots,
            (#[trigger] cfg.outputs@[k]).id@,
        ) by {
            assert(has_slot(view.outputs, cfg.outputs@[k].id@));
            let i = choose|i: int|
                0 <= i < view.outputs.len() && (#[trigger] view.outputs[i]).id@
                    == cfg.outputs@[k].id@;
            assert(slots[i].id@ == cfg.outputs@[k].id@);
        }
    }
}

/// What the capture thread has been told makes no difference to the rest.
proof fn lemma_told(before: SupervisorView, after: SupervisorView)
    requires
        before.wf(),
        after == (SupervisorView { capture: after.capture, ..before }),
        match (before.capture, after.capture) {
            (Some(a), Some(b)) => b == (CaptureView { sent: b.sent, space: b.space, ..a }),
            (None, None) => true,
            _ => false,
        },
    ensures
        after.wf(),
{
    assert forall|i: int| 0 <= i < after.outputs.len() implies after.slot_ok(
        #[trigger] after.outputs[i],
    ) by {
        assert(before.slot_ok(before.outputs[i]));
    }
}

impl Supervisor {
    pub fn new(now: u64) -> (s: Self)
        ensures
            s@ == (SupervisorView {
                cfg: None,
                capture: None,
                outputs: Seq::empty(),
                next_source_try: now,
                last_default_poll: now,
                next_key: 1,
                source_error: None,
            }),
            s@.wf(),
    {
        let s = Supervisor {
            cfg: None,
            capture: None,
            outputs: Vec::new(),
            next_source_try: now,
            last_default_poll: now,
            next_key: 1,
            source_error: None,
        };
        assert(s@.outputs =~= Seq::empty());
        s
    }

    /// Stops mirroring.
    pub fn stop(&mut self)
        requires
            old(self)@.wf(),
        ensures
            final(self)@ == old(self)@.stopped(),
            final(self)@.wf(),
    {
        self.outputs.clear();
        self.capture = None;
        self.cfg = None;
        self.source_error = None;
        assert(self@.outputs =~= Seq::empty());
    }

    /// Takes a configuration. Returns the keys of the queues that the capture
    /// thread has to stop feeding.
    pub fn apply(&mut self, cfg: EngineConfig, now: u64) -> (keys: Vec<u64>)
        requires
            old(self)@.wf(),
        ensures
            final(self)@ == old(self)@.after_apply(cfg, now),
            keys@ == old(self)@.apply_keys(cfg),
            final(self)@.wf(),
    {
        let rebuild = match &self.cfg {
            None => true,
            Some(current) => !same(current.source.as_str(), cfg.source.as_str())
                || current.latency_ms != cfg.latency_ms,
        };
        let mut slots: Vec<OutputSlot> = Vec::new();
        let mut keys: Vec<u64> = Vec::new();
        if rebuild {
            self.capture = None;
            self.source_error = None;
            self.next_source_try = now;
            assert(keys@ =~= Seq::empty());
            assert(slots@ =~= Seq::empty());
        } else {
            let (stay, gone) = keep_configured(&self.outputs, &cfg.outputs);
            slots = stay;
            keys = gone;
        }
        let ghost base = slots@;
        add_fresh(&mut slots, &cfg.outputs, now);
        proof {
            lemma_kept(old(self)@.outputs, cfg.outputs@);
            lemma_with_fresh(base, cfg.outputs@, now);
        }
        self.outputs = slots;
        self.cfg = Some(cfg);
        proof {
            let after = self@.outputs;
            assert forall|i: int| 0 <= i < after.len() implies configured(
                cfg.outputs@,
                (#[trigger] after[i]).id@,
            ) && self@.slot_ok(after[i]) by {
                if i < base.len() {
                    assert(after[i] == base[i]);
                    let k = choose|k: int|
                        0 <= k < old(self)@.outputs.len() && base[i]
                            == #[trigger] old(self)@.outputs[k];
                    assert(old(self)@.slot_ok(old(self)@.outputs[k]));
                }
            }
            assert forall|i: int, j: int|
                0 <= i < j < after.len() && after[i].open && after[j].open implies (
            #[trigger] after[i]).key != (#[trigger] after[j]).key by {
                assert(i < base.len() && j < base.len());
                assert(after[i] == base[i] && after[j] == base[j]);
                let (a, b) = choose|a: int, b: int|
                    0 <= a < b < old(self)@.outputs.len() && base[i]
                        == #[trigger] old(self)@.outputs[a] && base[j]
                        == #[trigger] old(self)@.outputs[b];
                assert(old(self)@.outputs[a].key != old(self)@.outputs[b].key);
            }
        }
        keys
    }

    fn orphan_outputs(&mut self, now: u64)
        ensures
            final(self)@ == (SupervisorView {
                outputs: orphans(old(self)@.outputs, now),
                ..old(self)@
            }),
            final(self).capture == old(self).capture,
    {
        let mut slots: Vec<OutputSlot> = Vec::new();
        let mut i: usize = 0;
        while i < self.outputs.len()
            invariant
                i <= self.outputs@.len(),
                *self == *old(self),
                slots@ == orphans(self.outputs@, now).take(i as int),
            decreases self.outputs@.len() - i,
        {
            let mut slot = self.outputs[i].clone();
            slot.open = false;
            slot.key = 0;
            slot.next_try = now;
            slots.push(slot);
            assert(slots@ =~= orphans(self.outputs@, now).take(i + 1));
            i += 1;
        }
        assert(slots@ =~= orphans(self.outputs@, now));
        self.outputs = slots;
    }

    /// The capture is gone, with every stream it fed; it is tried again after
    /// a while.
    pub fn drop_capture(&mut self, reason: Option<String>, now: u64)
        requires
            old(self)@.wf(),
        ensures
            final(self)@ == old(self)@.uncaptured(reason, now),
            final(self)@.wf(),
    {
        self.orphan_outputs(now);
        self.capture = None;
        self.source_error = reason;
        self.next_source_try = after_interval(now);
        proof {
            lemma_uncaptured(old(self)@, reason, now);
        }
    }

    /// Takes the answer of the command queue: where it was full, everything
    /// starts over cleanly.
    pub fn settle(&mut self, accepted: bool, now: u64)
        requires
            old(self)@.wf(),
        ensures
            old(self)@.settles(accepted, now, final(self)@),
            final(self)@.wf(),
    {
        if !accepted {
            let why = "Restarting the stream".to_owned();
            self.drop_capture(Some(why), now);
        }
    }

    /// Tells the capture thread, in order. A queue that is known to have room
    /// takes all of it; beyond that it may turn out to be full, which depends
    /// on how fast the thread reads: see [`Supervisor::settle`].
    pub fn send_all(&mut self, cmds: Vec<CaptureCmd>, now: u64) -> (accepted: bool)
        requires
            old(self)@.wf(),
        ensures
            cmds@.len() == 0 ==> accepted,
            old(self)@.has_space(cmds@.len()) ==> accepted,
            accepted ==> exists|space: nat|
                {
                    &&& final(self)@ == #[trigger] old(self)@.told(cmds@, space)
                    &&& (old(self)@.capture matches Some(capture) ==> (cmds@.len()
                        <= capture.space ==> space == capture.space - cmds@.len()))
                },
            !accepted ==> old(self)@.capture is Some && old(self)@.settles(
                false,
                now,
                final(self)@,
            ),
            final(self)@.wf(),
    {
        let ghost all = cmds@;
        let mut rest = cmds;
        let mut full = false;
        let ghost mut left: nat = 0;
        if let Some(capture) = &mut self.capture {
            let ghost start = capture@;
            let ghost mut told = Seq::<CaptureCmd>::empty();
            assert(start.sent + told =~= start.sent);
            while rest.len() > 0 && !full
                invariant
                    told + rest@ =~= all,
                    capture@ == (CaptureView {
                        sent: capture@.sent,
                        space: capture@.space,
                        ..start
                    }),
                    !full ==> capture@.sent == start.sent + told,
                    all.len() <= start.space ==> !full && capture@.space == start.space
                        - told.len(),
                    all.len() == 0 ==> !full,
                decreases rest@.len(),
            {
                let cmd = rest.remove(0);
                let ghost before = told;
                proof {
                    told = told.push(cmd);
                }
                if !push_command(&mut capture.cmds, cmd) {
                    full = true;
                }
                assert(start.sent + told =~= (start.sent + before).push(cmd));
            }
            proof {
                left = capture@.space;
            }
            assert(!full ==> told =~= all);
        }
        let ghost tried = self@;
        proof {
            lemma_told(old(self)@, self@);
            if !full {
                assert(tried == old(self)@.told(all, left));
            }
        }
        self.settle(!full, now);
        proof {
            if full {
                let why = choose|why: String|
                    why@ == "Restarting the stream"@ && self@ == #[trigger] tried.uncaptured(
                        Some(why),
                        now,
                    );
                assert(self@ == old(self)@.uncaptured(Some(why), now));
            }
        }
        !full
    }

    fn next_step(&self, now: u64) -> (r: TickStep)
        ensures
            r == self@.capture_step(now),
    {
        if self.capture.is_some() {
            TickStep::Outputs
        } else if now < self.next_source_try {
            TickStep::Done
        } else {
            TickStep::BuildCapture
        }
    }

    /// Begins a round. `fault` is a failure the capture has reported since
    /// the last one.
    pub fn begin_tick(&mut self, fault: Option<String>, now: u64) -> (r: TickStep)
        requires
            old(self)@.wf(),
        ensures
            final(self)@ == old(self)@.after_begin(fault, now),
            r == old(self)@.begin_step(fault, now),
            final(self)@.wf(),
    {
        let desktop = match &self.cfg {
            Some(cfg) => same(cfg.source.as_str(), DESKTOP),
            None => {
                return TickStep::Done;
            },
        };
        if self.capture.is_some() && fault.is_some() {
            self.drop_capture(fault, now);
        }
        let ghost looked = self@;
        if desktop && self.capture.is_some() && now >= self.last_default_poll && now
            - self.last_default_poll >= DEFAULT_POLL {
            self.last_default_poll = now;
            proof {
                lemma_times(looked, self@);
            }
            return TickStep::AskDefault;
        }
        self.next_step(now)
    }

    /// The default output is known.
    pub fn default_known(&mut self, current: Option<String>, now: u64) -> (r: TickStep)
        requires
            old(self)@.wf(),
        ensures
            final(self)@ == old(self)@.after_default(current, now),
            r == final(self)@.capture_step(now),
            final(self)@.wf(),
    {
        let captured = match &self.capture {
            Some(capture) => copy_text(&capture.loopback_of),
            None => None,
        };
        if current.is_some() && !same_text(&current, &captured) {
            self.drop_capture(None, now);
            let ghost dropped = self@;
            self.next_source_try = now;
            proof {
                lemma_times(dropped, self@);
            }
        }
        self.next_step(now)
    }

    /// What opening the source came to.
    pub fn capture_built(&mut self, outcome: Result<Capture, String>, now: u64) -> (r: TickStep)
        requires
            old(self)@.wf(),
            old(self)@.cfg is Some,
            old(self)@.capture is None,
        ensures
            match outcome {
                Ok(capture) => r is Outputs && final(self)@ == (SupervisorView {
                    capture: Some(capture@),
                    source_error: None,
                    ..old(self)@
                }),
                Err(e) => r is Done && final(self)@ == (SupervisorView {
                    source_error: Some(e),
                    next_source_try: reconnect_at(now),
                    ..old(self)@
                }),
            },
            final(self)@.wf(),
    {
        match outcome {
            Ok(capture) => {
                self.capture = Some(capture);
                self.source_error = None;
                proof {
                    assert forall|i: int| 0 <= i < self@.outputs.len() implies self@.slot_ok(
                        #[trigger] self@.outputs[i],
                    ) by {
                        assert(old(self)@.slot_ok(old(self)@.outputs[i]));
                    }
                }
                TickStep::Outputs
            },
            Err(e) => {
                self.source_error = Some(e);
                self.next_source_try = after_interval(now);
                proof {
                    lemma_times(old(self)@, self@);
                }
                TickStep::Done
            },
        }
    }

    /// How many of the configured outputs are served.
    pub fn output_count(&self) -> (n: usize)
        ensures
            n == match self@.cfg {
                Some(cfg) => if cfg.outputs@.len() <= MAX_OUTPUTS {
                    cfg.outputs@.len() as int
                } else {
                    MAX_OUTPUTS as int
                },
                None => 0,
            },
    {
        match &self.cfg {
            Some(cfg) => if cfg.outputs.len() <= MAX_OUTPUTS {
                cfg.outputs.len()
            } else {
                MAX_OUTPUTS
            },
            None => 0,
        }
    }

    /// The slot of a configured output.
    pub fn slot_of(&self, output: usize) -> (i: usize)
        requires
            self@.wf(),
            self@.cfg is Some,
            output < self@.cfg->0.outputs@.len(),
        ensures
            i < self@.outputs.len(),
            self@.outputs[i as int].id@ == self@.cfg->0.outputs@[output as int].id@,
    {
        match &self.cfg {
            Some(cfg) => {
                assert(has_slot(self@.outputs, cfg.outputs@[output as int].id@));
                match slot_index(&self.outputs, cfg.outputs[output].id.as_str()) {
                    Some(i) => i,
                    None => 0,
                }
            },
            None => 0,
        }
    }

    /// Looks at the output of a slot. `fault` is a failure its stream has
    /// reported since the last round.
    pub fn output_step(&mut self, i: usize, fault: Option<String>, now: u64) -> (r: OutputStep)
        requires
            old(self)@.wf(),
            old(self)@.cfg is Some,
            old(self)@.capture is Some,
            i < old(self)@.outputs.len(),
        ensures
            r == old(self)@.output_step(old(self)@.outputs[i as int], fault, now),
            final(self)@ == old(self)@.with_slot(
                i as int,
                old(self)@.looked_at(old(self)@.outputs[i as int], fault, now),
            ),
            final(self)@.wf(),
    {
        let latency: u32 = match &self.cfg {
            Some(cfg) => cfg.latency_ms,
            None => 0,
        };
        let (rate, channels): (u32, usize) = match &self.capture {
            Some(capture) => (capture.rate, capture.channels),
            None => (0, 0),
        };
        let captured = match &self.capture {
            Some(capture) => match &capture.loopback_of {
                Some(out) => same(out.as_str(), self.outputs[i].id.as_str()),
                None => false,
            },
            None => false,
        };
        let mut slot = self.outputs[i].clone();
        let key: u64 = slot.key;
        let ghost before = self@;
        let ghost old_slot = slot;
        let step = match fault {
            Some(why) => {
                slot.open = false;
                slot.key = 0;
                slot.error = Some(why);
                slot.next_try = after_interval(now);
                OutputStep::Remove { key }
            },
            None => {
                slot.blocked = captured;
                if captured {
                    if slot.open {
                        slot.open = false;
                        slot.key = 0;
                        OutputStep::Remove { key }
                    } else {
                        OutputStep::Skip
                    }
                } else if slot.open || now < slot.next_try {
                    OutputStep::Skip
                } else {
                    assert(rate * latency <= u32::MAX * u32::MAX) by (nonlinear_arith)
                        requires
                            rate <= u32::MAX,
                            latency <= u32::MAX,
                    ;
                    let frames: u64 = (rate as u64) * (latency as u64) / 1000;
                    OutputStep::Build { rate, channels, target_frames: frames as usize }
                }
            },
        };
        self.outputs[i] = slot;
        proof {
            assert(before.slot_ok(old_slot));
            assert(self@.outputs =~= before.outputs.update(i as int, slot));
            lemma_with_slot(before, i as int, slot);
        }
        step
    }

    /// What opening the stream of a slot came to. The key is that of the
    /// queue the capture thread has to feed from now on.
    pub fn output_built(&mut self, i: usize, outcome: Result<String, String>, now: u64) -> (r:
        Option<u64>)
        requires
            old(self)@.wf(),
            old(self)@.capture is Some,
            i < old(self)@.outputs.len(),
            !old(self)@.outputs[i as int].open,
            !old(self)@.is_captured(old(self)@.outputs[i as int]),
            old(self)@.next_key < u64::MAX,
        ensures
            match outcome {
                Ok(format) => {
                    &&& r == Some(old(self)@.next_key)
                    &&& final(self)@ == (SupervisorView {
                        next_key: (old(self)@.next_key + 1) as u64,
                        ..old(self)@.with_slot(
                            i as int,
                            old(self)@.outputs[i as int].opened(old(self)@.next_key, format),
                        )
                    })
                },
                Err(e) => {
                    &&& r is None
                    &&& final(self)@ == old(self)@.with_slot(
                        i as int,
                        old(self)@.outputs[i as int].refused(e, now),
                    )
                },
            },
            final(self)@.wf(),
    {
        let mut slot = self.outputs[i].clone();
        let ghost before = self@;
        let ghost old_slot = slot;
        assert(before.slot_ok(old_slot));
        match outcome {
            Ok(format) => {
                let key: u64 = self.next_key;
                slot.open = true;
                slot.key = key;
                slot.error = None;
                slot.format = Some(format);
                self.outputs[i] = slot;
                self.next_key = key + 1;
                proof {
                    assert(self@.outputs =~= before.outputs.update(i as int, slot));
                    let after = self@;
                    assert forall|k: int| 0 <= k < after.outputs.len() implies after.slot_ok(
                        #[trigger] after.outputs[k],
                    ) by {
                        assert(before.slot_ok(before.outputs[k]));
                    }
                    assert forall|a: int, b: int|
                        0 <= a < b < after.outputs.len() && after.outputs[a].open
                            && after.outputs[b].open implies (#[trigger] after.outputs[a]).key != (
                    #[trigger] after.outputs[b]).key by {
                        assert(before.slot_ok(before.outputs[a]));
                        assert(before.slot_ok(before.outputs[b]));
                        if a != i && b != i {
                            assert(before.outputs[a].key != before.outputs[b].key);
                        }
                    }
                    lemma_same_ids(before, after, i as int);
                }
                Some(key)
            },
            Err(e) => {
                slot.error = Some(e);
                slot.next_try = after_interval(now);
                self.outputs[i] = slot;
                proof {
                    assert(self@.outputs =~= before.outputs.update(i as int, slot));
                    lemma_with_slot(before, i as int, slot);
                }
                None
            },
        }
    }

    /// What the panel shows of an output.
    pub open spec fn output_shown(id: String, slot: Option<OutputSlot>, capturing: bool) -> OutputStatus {
        let (state, message) = match slot {
            Some(s) => if s.blocked {
                (NodeState::Blocked, None)
            } else if s.open {
                (NodeState::Buffering, None)
            } else if s.error is Some {
                (NodeState::Error, s.error)
            } else if capturing {
                (NodeState::Starting, None)
            } else {
                (NodeState::Idle, None)
            },
            None => if capturing {
                (NodeState::Starting, None)
            } else {
                (NodeState::Idle, None)
            },
        };
        OutputStatus {
            id,
            state,
            message,
            format: match slot {
                Some(s) => if s.open {
                    s.format
                } else {
                    None
                },
                None => None,
            },
            peak: 0,
        }
    }

    /// What the panel shows of the source.
    pub open spec fn source_shown(view: SupervisorView) -> SourceStatus {
        SourceStatus {
            state: if view.capture is Some {
                NodeState::Playing
            } else if view.source_error is Some {
                NodeState::Error
            } else {
                NodeState::Starting
            },
            message: view.source_error,
            format: match view.capture {
                Some(capture) => Some(capture.format),
                None => None,
            },
            peak: 0,
        }
    }

    /// Whether `shown` is what the panel shows of an output: a blocked one
    /// says why in words.
    pub open spec fn shows(shown: OutputStatus, id: String, slot: OutputSlot, capturing: bool) -> bool {
        if slot.blocked {
            &&& shown.id == id
            &&& shown.state is Blocked
            &&& shown.message matches Some(why) && why@ == "Captured by the source"@
            &&& shown.format == Self::output_shown(id, Some(slot), capturing).format
            &&& shown.peak == 0
        } else {
            shown == Self::output_shown(id, Some(slot), capturing)
        }
    }

    fn show_output(&self, id: &String, slot: &OutputSlot) -> (r: OutputStatus)
        ensures
            Self::shows(r, *id, *slot, self@.capture is Some),
    {
        let (state, message) = if slot.blocked {
            (NodeState::Blocked, Some("Captured by the source".to_owned()))
        } else if slot.open {
            (NodeState::Buffering, None)
        } else if slot.error.is_some() {
            (NodeState::Error, copy_text(&slot.error))
        } else if self.capture.is_some() {
            (NodeState::Starting, None)
        } else {
            (NodeState::Idle, None)
        };
        let format = if slot.open {
            copy_text(&slot.format)
        } else {
            None
        };
        OutputStatus { id: id.clone(), state, message, format, peak: 0 }
    }

    /// What the panel shows, the outputs in the order of the configuration.
    pub fn publish(&self) -> (st: Status)
        requires
            self@.wf(),
        ensures
            match self@.cfg {
                None => st.stopped(),
                Some(cfg) => {
                    &&& st.running
                    &&& st.source == Self::source_shown(self@)
                    &&& st.outputs@.len() == cfg.outputs@.len()
                    &&& forall|k: int, i: int|
                        0 <= k < cfg.outputs@.len() && 0 <= i < self@.outputs.len()
                            && self@.outputs[i].id@ == cfg.outputs@[k].id@ ==> Self::shows(
                            #[trigger] st.outputs@[k],
                            cfg.outputs@[k].id,
                            #[trigger] self@.outputs[i],
                            self@.capture is Some,
                        )
                },
            },
    {
        let cfg = match &self.cfg {
            Some(cfg) => cfg,
            None => {
                return Status::default();
            },
        };
        let state = if self.capture.is_some() {
            NodeState::Playing
        } else if self.source_error.is_some() {
            NodeState::Error
        } else {
            NodeState::Starting
        };
        let format = match &self.capture {
            Some(capture) => Some(capture.format.clone()),
            None => None,
        };
        let source = SourceStatus { state, message: copy_text(&self.source_error), format, peak: 0 };
        let mut outputs: Vec<OutputStatus> = Vec::new();
        let mut k: usize = 0;
        while k < cfg.outputs.len()
            invariant
                k <= cfg.outputs@.len(),
                self@.wf(),
                self@.cfg == Some(*cfg),
                outputs@.len() == k,
                forall|n: int, i: int|
                    0 <= n < k && 0 <= i < self@.outputs.len() && self@.outputs[i].id@
                        == cfg.outputs@[n].id@ ==> Self::shows(
                        #[trigger] outputs@[n],
                        cfg.outputs@[n].id,
                        #[trigger] self@.outputs[i],
                        self@.capture is Some,
                    ),
            decreases cfg.outputs@.len() - k,
        {
            let at: usize = self.slot_of(k);
            let ghost before = outputs@;
            outputs.push(self.show_output(&cfg.outputs[k].id, &self.outputs[at]));
            proof {
                assert forall|n: int, i: int|
                    0 <= n < k + 1 && 0 <= i < self@.outputs.len() && self@.outputs[i].id@
                        == cfg.outputs@[n].id@ implies Self::shows(
                    #[trigger] outputs@[n],
                    cfg.outputs@[n].id,
                    #[trigger] self@.outputs[i],
                    self@.capture is Some,
                ) by {
                    if n < k {
                        assert(outputs@[n] == before[n]);
                    } else if i < at {
                        assert(self@.outputs[i].id@ != self@.outputs[at as int].id@);
                    } else if i > at {
                        assert(self@.outputs[at as int].id@ != self@.outputs[i].id@);
                    }
                }
            }
            k += 1;
        }
        Status { running: true, source, outputs }
    }
}

proof fn lemma_times(before: SupervisorView, after: SupervisorView)
    requires
        before.wf(),
        after == (SupervisorView {
            next_source_try: after.next_source_try,
            last_default_poll: after.last_default_poll,
            source_error: after.source_error,
            ..before
        }),
    ensures
        after.wf(),
{
    assert forall|i: int| 0 <= i < after.outputs.len() implies after.slot_ok(
        #[trigger] after.outputs[i],
    ) by {
        assert(before.slot_ok(before.outputs[i]));
    }
}

proof fn lemma_same_ids(before: SupervisorView, after: SupervisorView, i: int)
    requires
        before.wf(),
        0 <= i < before.outputs.len(),
        after.cfg == before.cfg,
        after.outputs == before.outputs.update(i, after.outputs[i]),
        after.outputs[i].id == before.outputs[i].id,
    ensures
        distinct(after.outputs),
        after.cfg matches Some(cfg) ==> {
            &&& forall|k: int|
                0 <= k < after.outputs.len() ==> configured(
                    cfg.outputs@,
                    (#[trigger] after.outputs[k]).id@,
                )
            &&& forall|k: int|
                0 <= k < cfg.outputs@.len() ==> has_slot(
                    after.outputs,
                    (#[trigger] cfg.outputs@[k]).id@,
                )
        },
{
    assert forall|a: int, b: int| 0 <= a < b < after.outputs.len() implies (
    #[trigger] after.outputs[a]).id@ != (#[trigger] after.outputs[b]).id@ by {
        assert(before.outputs[a].id@ != before.outputs[b].id@);
    }
    if before.cfg is Some {
        let cfg = before.cfg->0;
        assert forall|k: int| 0 <= k < after.outputs.len() implies configured(
            cfg.outputs@,
            (#[trigger] after.outputs[k]).id@,
        ) by {
            assert(configured(cfg.outputs@, before.outputs[k].id@));
        }
        assert forall|k: int| 0 <= k < cfg.outputs@.len() implies has_slot(
            after.outputs,
            (#[trigger] cfg.outputs@[k]).id@,
        ) by {
            assert(has_slot(before.outputs, cfg.outputs@[k].id@));
            let n = choose|n: int|
                0 <= n < before.outputs.len() && (#[trigger] before.outputs[n]).id@
                    == cfg.outputs@[k].id@;
            assert(after.outputs[n].id@ == cfg.outputs@[k].id@);
        }
    }
}

proof fn lemma_with_slot(before: SupervisorView, i: int, slot: OutputSlot)
    requires
        before.wf(),
        0 <= i < before.outputs.len(),
        slot.id == before.outputs[i].id,
        before.slot_ok(slot),
        slot.open ==> before.outputs[i].open && slot.key == before.outputs[i].key,
    ensures
        before.with_slot(i, slot).wf(),
{
    let after = before.with_slot(i, slot);
    lemma_same_ids(before, after, i);
    assert forall|k: int| 0 <= k < after.outputs.len() implies after.slot_ok(
        #[trigger] after.outputs[k],
    ) by {
        assert(before.slot_ok(before.outputs[k]));
    }
    assert forall|a: int, b: int|
        0 <= a < b < after.outputs.len() && after.outputs[a].open && after.outputs[b].open implies (
    #[trigger] after.outputs[a]).key != (#[trigger] after.outputs[b]).key by {
        assert(before.outputs[a].key != before.outputs[b].key);
    }
}

/// The name of a layout with that many channels.
pub open spec fn layout_name(channels: nat) -> Seq<char> {
    if channels == 1 {
        "mono"@
    } else if channels == 2 {
        "stereo"@
    } else if channels == 6 {
        "5.1"@
    } else if channels == 8 {
        "7.1"@
    } else {
        decimal(channels) + " channels"@
    }
}

fn layout_text(channels: usize) -> (r: String)
    ensures
        r@ == layout_name(channels as nat),
{
    match channels {
        1 => "mono".to_owned(),
        2 => "stereo".to_owned(),
        6 => "5.1".to_owned(),
        8 => "7.1".to_owned(),
        _ => {
            let mut out = decimal_text(channels as u64);
            out.append(" channels");
            out
        },
    }
}

/// Human readable format: a rate in kilohertz, the name of a layout and the
/// name of a sample format.
pub fn describe_as(khz: &str, channels: usize, fmt: &str) -> (r: String)
    ensures
        r@ == khz@ + " kHz, "@ + layout_name(channels as nat) + ", "@ + fmt@,
{
    let mut out = khz.to_owned();
    out.append(" kHz, ");
    out.append(layout_text(channels).as_str());
    out.append(", ");
    out.append(fmt);
    out
}

/// Human readable format.
pub fn describe(rate: u32, channels: usize, fmt: &str) -> (r: String)
    requires
        rate < EXACT_RATES,
    ensures
        r@ == kilohertz(rate as nat) + " kHz, "@ + layout_name(channels as nat) + ", "@ + fmt@,
{
    describe_as(kilohertz_text(rate).as_str(), channels, fmt)
}

/// What a stream reports while it runs.
#[derive(Debug, Clone, Copy, PartialEq, Eq, Structural)]
pub enum StreamError {
    Xrun,
    RealtimeDenied,
    DeviceChanged,
    DeviceNotAvailable,
    PermissionDenied,
    Other,
}

/// The failure a report amounts to, `text` being the words it came in. A
/// transient incident is none: the stream keeps running.
pub fn fault_message(error: StreamError, text: &str) -> (r: Option<String>)
    ensures
        match error {
            StreamError::Xrun | StreamError::RealtimeDenied | StreamError::DeviceChanged => r
                is None,
            StreamError::DeviceNotAvailable => r matches Some(m) && m@ == "Device disconnected"@,
            StreamError::PermissionDenied => r matches Some(m) && m@
                == "Access denied by the system"@,
            StreamError::Other => r matches Some(m) && m@ == text@,
        },
{
    match error {
        StreamError::Xrun => None,
        StreamError::RealtimeDenied => None,
        StreamError::DeviceChanged => None,
        StreamError::DeviceNotAvailable => Some("Device disconnected".to_owned()),
        StreamError::PermissionDenied => Some("Access denied by the system".to_owned()),
        StreamError::Other => Some(text.to_owned()),
    }
}

/// The queue between a capture and an output.
pub fn pipe_format(
    in_rate: u32,
    in_channels: usize,
    out_rate: u32,
    out_channels: usize,
    target_frames: usize,
) -> (r: PipeFormat)
    ensures
        r == (PipeFormat {
            in_rate,
            in_channels,
            out_rate,
            out_channels,
            target_frames: if target_frames >= MIN_TARGET {
                target_frames
            } else {
                MIN_TARGET
            },
        }),
{
    let target: usize = if target_frames >= MIN_TARGET {
        target_frames
    } else {
        MIN_TARGET
    };
    PipeFormat { in_rate, in_channels, out_rate, out_channels, target_frames: target }
}

/// The queues the capture thread feeds.
pub struct Sinks {
    pub entries: Vec<(u64, Producer<u32>)>,
}

/// The queues without that of a key.
pub open spec fn without(entries: Seq<(u64, Producer<u32>)>, key: u64) -> Seq<
    (u64, Producer<u32>),
>
    decreases entries.len(),
{
    if entries.len() == 0 {
        Seq::empty()
    } else if entries.last().0 == key {
        without(entries.drop_last(), key)
    } else {
        without(entries.drop_last(), key).push(entries.last())
    }
}

/// The queues once a command has been carried out. One more than there may be
/// outputs is left out.
pub open spec fn commanded(entries: Seq<(u64, Producer<u32>)>, cmd: CaptureCmd) -> Seq<
    (u64, Producer<u32>),
> {
    match cmd {
        CaptureCmd::Add(key, p) => {
            let rest = without(entries, key);
            if rest.len() < MAX_OUTPUTS {
                rest.push((key, p))
            } else {
                rest
            }
        },
        CaptureCmd::Remove(key) => without(entries, key),
    }
}

proof fn lemma_without_middle(
    front: Seq<(u64, Producer<u32>)>,
    entry: (u64, Producer<u32>),
    back: Seq<(u64, Producer<u32>)>,
    key: u64,
)
    requires
        entry.0 == key,
    ensures
        without(front + seq![entry] + back, key) == without(front + back, key),
    decreases back.len(),
{
    let whole = front + seq![entry] + back;
    let rest = front + back;
    if back.len() == 0 {
        assert(whole.drop_last() =~= front);
        assert(rest =~= front);
    } else {
        lemma_without_middle(front, entry, back.drop_last(), key);
        assert(whole.drop_last() =~= front + seq![entry] + back.drop_last());
        assert(rest.drop_last() =~= front + back.drop_last());
    }
}

proof fn lemma_without_none(entries: Seq<(u64, Producer<u32>)>, key: u64)
    requires
        forall|i: int| 0 <= i < entries.len() ==> (#[trigger] entries[i]).0 != key,
    ensures
        without(entries, key) == entries,
    decreases entries.len(),
{
    if entries.len() > 0 {
        let front = entries.drop_last();
        assert forall|i: int| 0 <= i < front.len() implies (#[trigger] front[i]).0 != key by {
            assert(entries[i].0 != key);
        }
        lemma_without_none(front, key);
        assert(entries[entries.len() - 1].0 != key);
        assert(front.push(entries.last()) =~= entries);
    }
}

impl Sinks {
    pub fn new() -> (s: Self)
        ensures
            s.entries@.len() == 0,
    {
        Sinks { entries: Vec::new() }
    }

    fn forget(&mut self, key: u64)
        ensures
            final(self).entries@ == without(old(self).entries@, key),
    {
        let mut i: usize = 0;
        while i < self.entries.len()
            invariant
                i <= self.entries@.len(),
                without(self.entries@, key) == without(old(self).entries@, key),
                forall|k: int| 0 <= k < i ==> (#[trigger] self.entries@[k]).0 != key,
            decreases self.entries@.len() - i,
        {
            if self.entries[i].0 == key {
                let ghost before = self.entries@;
                self.entries.remove(i);
                proof {
                    let front = before.take(i as int);
                    let back = before.skip(i + 1);
                    lemma_without_middle(front, before[i as int], back, key);
                    assert(before =~= front + seq![before[i as int]] + back);
                    assert(self.entries@ =~= front + back);
                    assert forall|k: int| 0 <= k < i implies (#[trigger] self.entries@[k]).0
                        != key by {
                        assert(before[k].0 != key);
                    }
                }
            } else {
                i += 1;
            }
        }
        proof {
            lemma_without_none(self.entries@, key);
        }
    }

    /// Carries out a command.
    pub fn handle(&mut self, cmd: CaptureCmd)
        ensures
            final(self).entries@ == commanded(old(self).entries@, cmd),
    {
        match cmd {
            CaptureCmd::Add(key, p) => {
                self.forget(key);
                if self.entries.len() < MAX_OUTPUTS {
                    self.entries.push((key, p));
                }
            },
            CaptureCmd::Remove(key) => {
                self.forget(key);
            },
        }
    }

    /// Carries out the next command that waits. False when there is none.
    pub fn handle_next(&mut self, commands: &mut Consumer<CaptureCmd>) -> (r: bool)
        ensures
            r ==> exists|cmd: CaptureCmd|
                final(self).entries@ == #[trigger] commanded(old(self).entries@, cmd) && (
                waiting(*old(commands)).len() > 0 ==> cmd == waiting(
                    *old(commands),
                )[0]),
            waiting(*old(commands)).len() > 0 ==> r && waiting(*final(commands)) == waiting(
                *old(commands),
            ).drop_first(),
            !r ==> *final(self) == *old(self) && waiting(*final(commands)).len() == 0,
    {
        match pop_command(commands) {
            Some(cmd) => {
                self.handle(cmd);
                true
            },
            None => false,
        }
    }

    /// Hands captured samples to every queue: each takes whole frames, as
    /// many as fit.
    pub fn fan_out(&mut self, samples: &[u32], channels: usize)
        requires
            channels > 0,
        ensures
            final(self).entries@.len() == old(self).entries@.len(),
            forall|i: int|
                0 <= i < old(self).entries@.len() ==> fed(
                    #[trigger] old(self).entries@[i],
                    final(self).entries@[i],
                    samples@,
                    channels as nat,
                ),
    {
        let mut i: usize = 0;
        while i < self.entries.len()
            invariant
                channels > 0,
                i <= self.entries@.len(),
                self.entries@.len() == old(self).entries@.len(),
                forall|k: int|
                    0 <= k < i ==> fed(
                        #[trigger] old(self).entries@[k],
                        self.entries@[k],
                        samples@,
                        channels as nat,
                    ),
                forall|k: int|
                    i <= k < self.entries@.len() ==> self.entries@[k]
                        == #[trigger] old(self).entries@[k],
            decreases self.entries@.len() - i,
        {
            assert(self.entries@[i as int] == old(self).entries@[i as int]);
            let frames: usize = push_frames(&mut self.entries[i].1, samples, channels);
            proof {
                let before = old(self).entries@[i as int];
                let after = self.entries@[i as int];
                let seen = choose|seen: nat|
                    room(before.1) <= seen && frames * channels == #[trigger] pushable(
                        seen,
                        samples@.len(),
                        channels as nat,
                    ) && room(after.1) == seen - frames * channels;
                assert(fed_with(before, after, samples@, channels as nat, seen));
            }
            i += 1;
        }
    }
}

/// Whether a queue with `seen` free slots took the first frames of the
/// samples: as many as there are and as fit.
pub open spec fn fed_with(
    before: (u64, Producer<u32>),
    after: (u64, Producer<u32>),
    samples: Seq<u32>,
    channels: nat,
    seen: nat,
) -> bool {
    &&& after.0 == before.0
    &&& room(before.1) <= seen
    &&& room(after.1) == seen - pushable(seen, samples.len(), channels)
    &&& written(after.1) == written(before.1) + samples.take(
        pushable(seen, samples.len(), channels) as int,
    )
}

/// Whether a queue took the first frames of the samples, at least as many as
/// fit where it was known to be free.
pub open spec fn fed(
    before: (u64, Producer<u32>),
    after: (u64, Producer<u32>),
    samples: Seq<u32>,
    channels: nat,
) -> bool {
    exists|seen: nat| fed_with(before, after, samples, channels, seen)
}

/// An output as it is shown once its meter has been read.
pub open spec fn metered(shown: OutputStatus, meter: Option<(u32, PlayState)>) -> OutputStatus {
    match meter {
        None => shown,
        Some((peak, play)) => OutputStatus {
            peak,
            state: if shown.state is Buffering || shown.state is Playing {
                match play {
                    PlayState::Playing => NodeState::Playing,
                    PlayState::Buffering => NodeState::Buffering,
                }
            } else {
                shown.state
            },
            ..shown
        },
    }
}

impl Status {
    /// The status with the peaks accumulated since the previous call, and
    /// with what the audio threads report: the meters of the outputs that
    /// have controls, in order.
    pub fn with_meters(self, source_peak: u32, meters: &Vec<Option<(u32, PlayState)>>) -> (r: Self)
        requires
            meters@.len() == self.outputs@.len(),
        ensures
            r.running == self.running,
            r.source == (SourceStatus { peak: source_peak, ..self.source }),
            r.outputs@ == Seq::new(
                self.outputs@.len(),
                |i: int| metered(self.outputs@[i], meters@[i]),
            ),
    {
        let mut st = self;
        let ghost shown = st.outputs@;
        st.source.peak = source_peak;
        let mut outputs: Vec<OutputStatus> = Vec::new();
        let mut i: usize = 0;
        while i < st.outputs.len()
            invariant
                i <= st.outputs@.len(),
                st.outputs@ == shown,
                meters@.len() == shown.len(),
                outputs@ == Seq::new(shown.len(), |i: int| metered(shown[i], meters@[i])).take(
                    i as int,
                ),
            decreases st.outputs@.len() - i,
        {
            let o = &st.outputs[i];
            let mut copy = OutputStatus {
                id: o.id.clone(),
                state: o.state,
                message: copy_text(&o.message),
                format: copy_text(&o.format),
                peak: o.peak,
            };
            if let Some((peak, play)) = meters[i] {
                copy.peak = peak;
                if copy.state == NodeState::Buffering || copy.state == NodeState::Playing {
                    copy.state = match play {
                        PlayState::Playing => NodeState::Playing,
                        PlayState::Buffering => NodeState::Buffering,
                    };
                }
            }
            outputs.push(copy);
            assert(outputs@ =~= Seq::new(
                shown.len(),
                |i: int| metered(shown[i], meters@[i]),
            ).take(i + 1));
            i += 1;
        }
        assert(outputs@ =~= Seq::new(shown.len(), |i: int| metered(shown[i], meters@[i])));
        Status { running: st.running, source: st.source, outputs }
    }
}

/// No stream is ever open on the captured device, and none without a capture
/// to feed it: playing what is captured back into it would be a feedback
/// loop.
pub proof fn law_the_captured_output_is_never_played_on(sup: SupervisorView, i: int)
    requires
        sup.wf(),
        0 <= i < sup.outputs.len(),
        sup.outputs[i].open,
    ensures
        sup.capture is Some,
        !sup.is_captured(sup.outputs[i]),
{
    assert(sup.slot_ok(sup.outputs[i]));
}

/// The captured device is never opened as an output, whatever the time; one
/// that was open is closed, and shown as blocked.
pub proof fn law_the_captured_output_is_not_opened(
    sup: SupervisorView,
    slot: OutputSlot,
    fault: Option<String>,
    now: u64,
)
    requires
        sup.is_captured(slot),
    ensures
        !(sup.output_step(slot, fault, now) is Build),
        !sup.looked_at(slot, fault, now).open,
        fault is None ==> sup.looked_at(slot, fault, now).blocked,
{
}

/// An output whose stream failed, or could not be opened, is left alone for a
/// full reconnection delay and tried again after it.
pub proof fn law_a_failed_output_is_tried_again(
    sup: SupervisorView,
    slot: OutputSlot,
    why: String,
    failed: u64,
    now: u64,
)
    requires
        !sup.is_captured(slot),
        !slot.open,
        failed + RECONNECT_INTERVAL <= u64::MAX,
    ensures
        sup.output_step(slot.faulted(why, failed), None, now) is Build <==> now >= failed
            + RECONNECT_INTERVAL,
        sup.output_step(slot.refused(why, failed), None, now) is Build <==> now >= failed
            + RECONNECT_INTERVAL,
{
}

/// As long as the source and the latency stay, an output that stays
/// configured keeps its slot as it is.
pub proof fn law_an_output_that_stays_on_is_not_rebuilt(
    sup: SupervisorView,
    cfg: EngineConfig,
    now: u64,
    i: int,
)
    requires
        sup.wf(),
        !sup.rebuilds(cfg),
        0 <= i < sup.outputs.len(),
        configured(cfg.outputs@, sup.outputs[i].id@),
    ensures
        sup.after_apply(cfg, now).outputs.contains(sup.outputs[i]),
        sup.after_apply(cfg, now).capture == sup.capture,
{
    lemma_kept_contains(sup.outputs, cfg.outputs@, i);
    let stay = kept(sup.outputs, cfg.outputs@);
    lemma_with_fresh(stay, cfg.outputs@, now);
    let k = choose|k: int| 0 <= k < stay.len() && stay[k] == sup.outputs[i];
    assert(with_fresh(stay, cfg.outputs@, now)[k] == stay[k]);
}

proof fn lemma_kept_contains(slots: Seq<OutputSlot>, outputs: Seq<OutputSpec>, i: int)
    requires
        0 <= i < slots.len(),
        configured(outputs, slots[i].id@),
    ensures
        kept(slots, outputs).contains(slots[i]),
    decreases slots.len(),
{
    let front = slots.drop_last();
    let some = kept(front, outputs);
    let all = kept(slots, outputs);
    if i == slots.len() - 1 {
        assert(all[all.len() - 1] == slots[i]);
    } else {
        lemma_kept_contains(front, outputs, i);
        let k = choose|k: int| 0 <= k < some.len() && some[k] == front[i];
        assert(all[k] == slots[i]);
    }
}

/// Another source, or another latency, starts everything over: no capture and
/// no stream is left.
pub proof fn law_another_source_starts_over(
    sup: SupervisorView,
    cfg: EngineConfig,
    now: u64,
    i: int,
)
    requires
        sup.rebuilds(cfg),
        0 <= i < sup.after_apply(cfg, now).outputs.len(),
    ensures
        sup.after_apply(cfg, now).capture is None,
        !sup.after_apply(cfg, now).outputs[i].open,
        sup.after_apply(cfg, now).capture_step(now) is BuildCapture,
{
    lemma_with_fresh(Seq::empty(), cfg.outputs@, now);
}

/// Desktop audio follows the default output: once another output is the
/// default one, the capture is dropped and opened again at once.
pub proof fn law_desktop_audio_follows_the_default_output(
    sup: SupervisorView,
    current: String,
    now: u64,
)
    requires
        sup.capture is Some,
        !same_option(Some(current), sup.capture->0.loopback_of),
    ensures
        sup.after_default(Some(current), now).capture is None,
        sup.after_default(Some(current), now).capture_step(now) is BuildCapture,
{
}

/// A source that could not be opened at `t` is left alone for three seconds and
/// opened by the first round after that; the panel says why meanwhile. Nothing
/// else changes.
pub proof fn law_a_source_that_could_not_be_opened_is_tried_again(
    sup: &mut Supervisor,
    why: String,
    t: u64,
    step: TickStep,
    after: &Supervisor,
    st: Status,
    ticking: &mut Supervisor,
    now: u64,
    next: TickStep,
)
    requires
        old(sup)@.cfg is Some,
        old(sup)@.capture is None,
        t + 3_000_000_000 <= u64::MAX,
        call_ensures(Supervisor::capture_built, (sup, Err::<Capture, String>(why), t), step),
        *after == *final(sup),
        call_ensures(Supervisor::publish, (after,), st),
        *old(ticking) == *final(sup),
        call_ensures(Supervisor::begin_tick, (ticking, None::<String>, now), next),
    ensures
        step is Done,
        now < t + 3_000_000_000 ==> next is Done,
        now >= t + 3_000_000_000 ==> next is BuildCapture,
        st.running && st.source.state is Error && st.source.message == Some(why),
        final(sup)@.outputs == old(sup)@.outputs,
        final(sup)@.cfg == old(sup)@.cfg,
{
}

/// A source that was opened is captured from then on, and shown in its format;
/// the outputs come next.
pub proof fn law_a_source_that_was_opened_is_captured(
    sup: &mut Supervisor,
    capture: Capture,
    t: u64,
    step: TickStep,
    after: &Supervisor,
    st: Status,
    ticking: &mut Supervisor,
    now: u64,
    next: TickStep,
)
    requires
        old(sup)@.cfg is Some,
        old(sup)@.capture is None,
        call_ensures(Supervisor::capture_built, (sup, Ok::<Capture, String>(capture), t), step),
        *after == *final(sup),
        call_ensures(Supervisor::publish, (after,), st),
        *old(ticking) == *final(sup),
        call_ensures(Supervisor::begin_tick, (ticking, None::<String>, now), next),
    ensures
        step is Outputs,
        final(sup)@.capture == Some(capture@),
        st.running && st.source.state is Playing && st.source.message is None,
        st.source.format == Some(capture.format) && st.source.peak == 0,
        next is Outputs || next is AskDefault,
        next is AskDefault <==> old(sup)@.cfg->0.source@ == "desktop"@ && now
            >= old(sup)@.last_default_poll + 2_000_000_000,
        final(sup)@.outputs == old(sup)@.outputs,
        final(sup)@.cfg == old(sup)@.cfg,
{
}

/// A capture that fails at `t` is gone, with every stream it fed; it is opened
/// again three seconds later. Each of the streams may be opened as soon as
/// there is a capture again.
pub proof fn law_a_failed_capture_is_opened_again(
    sup: &mut Supervisor,
    why: String,
    t: u64,
    step: TickStep,
    ticking: &mut Supervisor,
    now: u64,
    next: TickStep,
    i: int,
)
    requires
        old(sup)@.cfg is Some,
        old(sup)@.capture is Some,
        t + 3_000_000_000 <= u64::MAX,
        call_ensures(Supervisor::begin_tick, (sup, Some(why), t), step),
        *old(ticking) == *final(sup),
        call_ensures(Supervisor::begin_tick, (ticking, None::<String>, now), next),
        0 <= i < old(sup)@.outputs.len(),
    ensures
        step is Done,
        final(sup)@.capture is None,
        final(sup)@.source_error == Some(why),
        final(sup)@.outputs.len() == old(sup)@.outputs.len(),
        final(sup)@.outputs[i].id == old(sup)@.outputs[i].id,
        !final(sup)@.outputs[i].open && final(sup)@.outputs[i].next_try == t,
        now < t + 3_000_000_000 ==> next is Done,
        now >= t + 3_000_000_000 ==> next is BuildCapture,
{
}

/// While desktop audio is captured the default output is asked for every two
/// seconds. Where it is another one than is captured, or none was, the capture
/// is opened again at once; where it is the same, or there is none, everything
/// goes on.
pub proof fn law_the_capture_follows_the_default_output(
    sup: &mut Supervisor,
    current: Option<String>,
    now: u64,
    step: TickStep,
)
    requires
        old(sup)@.cfg is Some,
        old(sup)@.capture is Some,
        call_ensures(Supervisor::default_known, (sup, current, now), step),
    ensures
        ({
            let captured = old(sup)@.capture->0.loopback_of;
            let changed = current is Some && (captured is None || captured->0@ != current->0@);
            &&& changed ==> step is BuildCapture && final(sup)@.capture is None
            &&& !changed ==> step is Outputs && final(sup)@ == old(sup)@
        }),
        DEFAULT_POLL == 2_000_000_000,
        RECONNECT_INTERVAL == 3_000_000_000,
        0 < TICK <= 250_000_000,
{
}

/// With a stream that plays and a default output that was just asked for, the
/// next question comes two seconds later.
pub proof fn law_the_default_output_is_asked_for_in_time(
    sup: &mut Supervisor,
    t: u64,
    step: TickStep,
    ticking: &mut Supervisor,
    now: u64,
    next: TickStep,
)
    requires
        call_ensures(Supervisor::begin_tick, (sup, None::<String>, t), step),
        step is AskDefault,
        *old(ticking) == *final(sup),
        call_ensures(Supervisor::begin_tick, (ticking, None::<String>, now), next),
    ensures
        next is AskDefault <==> now >= t + 2_000_000_000,
        next is Outputs <==> now < t + 2_000_000_000,
        old(sup)@.cfg->0.source@ == "desktop"@,
{
}

/// Without a configuration a round does nothing.
pub proof fn law_nothing_runs_without_a_configuration(
    sup: &mut Supervisor,
    fault: Option<String>,
    now: u64,
    step: TickStep,
)
    requires
        old(sup)@.cfg is None,
        call_ensures(Supervisor::begin_tick, (sup, fault, now), step),
    ensures
        step is Done,
        final(sup)@ == old(sup)@,
{
}

/// Where the command queue was full everything starts over: the capture is
/// dropped with its streams and tried again after three seconds, and the panel
/// says so; where it was not, nothing changes.
pub proof fn law_a_full_queue_starts_over(
    sup: &mut Supervisor,
    accepted: bool,
    t: u64,
    dropping: &mut Supervisor,
    reason: Option<String>,
    i: int,
)
    requires
        t + 3_000_000_000 <= u64::MAX,
        call_ensures(Supervisor::settle, (sup, accepted, t), ()),
        call_ensures(Supervisor::drop_capture, (dropping, reason, t), ()),
        0 <= i < old(sup)@.outputs.len(),
        0 <= i < old(dropping)@.outputs.len(),
    ensures
        accepted ==> final(sup)@ == old(sup)@,
        !accepted ==> {
            &&& final(sup)@.capture is None
            &&& final(sup)@.next_source_try == t + 3_000_000_000
            &&& final(sup)@.source_error matches Some(why) && why@ == "Restarting the stream"@
            &&& !final(sup)@.outputs[i].open
            &&& final(sup)@.outputs[i].next_try == t
        },
        final(dropping)@.capture is None,
        final(dropping)@.source_error == reason,
        final(dropping)@.next_source_try == t + 3_000_000_000,
        !final(dropping)@.outputs[i].open && final(dropping)@.outputs[i].next_try == t,
        final(dropping)@.outputs[i].id == old(dropping)@.outputs[i].id,
        final(dropping)@.cfg == old(dropping)@.cfg,
{
}

/// The capture thread is told everything, in order, behind what it was told
/// before; with room for all of it nothing is refused.
pub proof fn law_the_capture_thread_is_told_in_order(
    sup: &mut Supervisor,
    cmds: Vec<CaptureCmd>,
    now: u64,
    accepted: bool,
)
    requires
        call_ensures(Supervisor::send_all, (sup, cmds, now), accepted),
        old(sup)@.capture is Some,
    ensures
        old(sup)@.capture->0.space >= cmds@.len() ==> accepted,
        accepted ==> {
            &&& final(sup)@.capture is Some
            &&& final(sup)@.capture->0.sent == old(sup)@.capture->0.sent + cmds@
            &&& final(sup)@.capture->0.rate == old(sup)@.capture->0.rate
            &&& final(sup)@.capture->0.loopback_of == old(sup)@.capture->0.loopback_of
            &&& final(sup)@.outputs == old(sup)@.outputs
            &&& old(sup)@.capture->0.space >= cmds@.len() ==> final(sup)@.capture->0.space
                == old(sup)@.capture->0.space - cmds@.len()
        },
        !accepted ==> final(sup)@.capture is None,
{
}

/// A new capture has the format it was made with, was told nothing, and has room
/// for as many commands as switch every output off and on.
pub proof fn law_a_new_capture_is_told_nothing(
    rate: u32,
    channels: usize,
    loopback_of: Option<String>,
    format: String,
    r: (Capture, Consumer<CaptureCmd>),
)
    requires
        call_ensures(Capture::new, (rate, channels, loopback_of, format), r),
    ensures
        r.0.rate == rate && r.0.channels == channels,
        r.0.loopback_of == loopback_of && r.0.format == format,
        sent(r.0.cmds).len() == 0,
        space(r.0.cmds) == 128,
        waiting(r.1).len() == 0,
{
    assert(r.0@.rate == r.0.rate);
}

/// An output is opened in the format of the capture, at the latency that is
/// set: as many whole frames as it lasts. It is opened exactly where it is not
/// open, its time has come, nothing failed and it is not what is captured; what
/// is captured is closed and never opened.
pub proof fn law_an_output_is_opened_in_the_format_of_the_capture(
    sup: &mut Supervisor,
    i: usize,
    fault: Option<String>,
    now: u64,
    r: OutputStep,
)
    requires
        call_ensures(Supervisor::output_step, (sup, i, fault, now), r),
        old(sup)@.cfg is Some,
        old(sup)@.capture is Some,
        i < old(sup)@.outputs.len(),
        old(sup)@.capture->0.rate * old(sup)@.cfg->0.latency_ms / 1000 <= usize::MAX,
    ensures
        ({
            let slot = old(sup)@.outputs[i as int];
            let capture = old(sup)@.capture->0;
            let latency = old(sup)@.cfg->0.latency_ms;
            let recorded = capture.loopback_of is Some && capture.loopback_of->0@ == slot.id@;
            let after = final(sup)@.outputs[i as int];
            &&& r is Build <==> fault is None && !recorded && !slot.open && now >= slot.next_try
            &&& r matches OutputStep::Build { rate, channels, target_frames } ==> {
                &&& rate == capture.rate && channels == capture.channels
                &&& target_frames * 1000 <= rate * latency < (target_frames + 1) * 1000
            }
            &&& r is Remove <==> fault is Some || (recorded && slot.open)
            &&& r matches OutputStep::Remove { key } ==> key == slot.key
            &&& r is Remove ==> !after.open && after.key == 0
            &&& fault is None ==> (after.blocked <==> recorded)
            &&& fault is Some ==> after.error == fault
            &&& after.id == slot.id
        }),
        final(sup)@.capture == old(sup)@.capture,
        final(sup)@.cfg == old(sup)@.cfg,
        forall|k: int|
            0 <= k < old(sup)@.outputs.len() && k != i ==> #[trigger] final(sup)@.outputs[k]
                == old(sup)@.outputs[k],
{
}

/// A stream that failed at `t`, or could not be opened then, is left alone for
/// three seconds and opened by the first round after that.
pub proof fn law_an_output_that_failed_is_tried_again(
    sup: &mut Supervisor,
    i: usize,
    why: String,
    t: u64,
    removed: OutputStep,
    refused: &mut Supervisor,
    key: Option<u64>,
    failed: &mut Supervisor,
    now: u64,
    next: OutputStep,
    ticking: &mut Supervisor,
    later: OutputStep,
)
    requires
        t + 3_000_000_000 <= u64::MAX,
        old(sup)@.capture is Some && old(sup)@.cfg is Some,
        i < old(sup)@.outputs.len(),
        !(old(sup)@.capture->0.loopback_of is Some && old(sup)@.capture->0.loopback_of->0@
            == old(sup)@.outputs[i as int].id@),
        call_ensures(Supervisor::output_step, (sup, i, Some(why), t), removed),
        *old(failed) == *final(sup),
        call_ensures(Supervisor::output_step, (failed, i, None::<String>, now), next),
        old(refused)@ == old(sup)@,
        !old(sup)@.outputs[i as int].open,
        call_ensures(
            Supervisor::output_built,
            (refused, i, Err::<String, String>(why), t),
            key,
        ),
        *old(ticking) == *final(refused),
        call_ensures(Supervisor::output_step, (ticking, i, None::<String>, now), later),
    ensures
        removed is Remove && key is None,
        next is Build <==> now >= t + 3_000_000_000,
        later is Build <==> now >= t + 3_000_000_000,
        final(refused)@.outputs[i as int].error == Some(why),
{
}

/// A stream that was opened gets a key that no other has, is shown in its
/// format without an error, and is left alone as long as nothing fails.
pub proof fn law_an_output_that_was_opened_plays(
    sup: &mut Supervisor,
    i: usize,
    format: String,
    t: u64,
    key: Option<u64>,
    ticking: &mut Supervisor,
    now: u64,
    next: OutputStep,
    k: int,
)
    requires
        old(sup)@.wf(),
        old(sup)@.capture is Some && old(sup)@.cfg is Some,
        i < old(sup)@.outputs.len(),
        old(sup)@.next_key < u64::MAX,
        !(old(sup)@.capture->0.loopback_of is Some && old(sup)@.capture->0.loopback_of->0@
            == old(sup)@.outputs[i as int].id@),
        call_ensures(
            Supervisor::output_built,
            (sup, i, Ok::<String, String>(format), t),
            key,
        ),
        *old(ticking) == *final(sup),
        call_ensures(Supervisor::output_step, (ticking, i, None::<String>, now), next),
        0 <= k < old(sup)@.outputs.len() && k != i,
    ensures
        key is Some && key->0 > 0,
        final(sup)@.outputs[i as int].open && final(sup)@.outputs[i as int].key == key->0,
        final(sup)@.outputs[i as int].format == Some(format),
        final(sup)@.outputs[i as int].error is None,
        old(sup)@.outputs[k].open ==> old(sup)@.outputs[k].key != key->0,
        final(sup)@.outputs[k] == old(sup)@.outputs[k],
        next is Skip,
        final(sup)@.next_key > key->0,
{
    assert(old(sup)@.slot_ok(old(sup)@.outputs[k]));
}

proof fn lemma_fresh_slot(slots: Seq<OutputSlot>, outputs: Seq<OutputSpec>, now: u64, i: int)
    requires
        0 <= i < with_fresh(slots, outputs, now).len(),
    ensures
        ({
            let slot = with_fresh(slots, outputs, now)[i];
            (i < slots.len() && slot == slots[i]) || (i >= slots.len() && !slot.open && slot.key == 0
                && slot.next_try == now && slot.error is None && !slot.blocked)
        }),
        with_fresh(slots, outputs, now).len() >= slots.len(),
    decreases outputs.len(),
{
    if outputs.len() > 0 {
        let front = outputs.drop_last();
        let before = with_fresh(slots, front, now);
        if i < before.len() {
            lemma_fresh_slot(slots, front, now, i);
        } else if before.len() > 0 {
            lemma_fresh_slot(slots, front, now, 0);
        } else {
            lemma_fresh_keeps(slots, front, now);
        }
    }
}

proof fn lemma_fresh_keeps(slots: Seq<OutputSlot>, outputs: Seq<OutputSpec>, now: u64)
    ensures
        with_fresh(slots, outputs, now).len() >= slots.len(),
        with_fresh(slots, outputs, now).take(slots.len() as int) == slots,
    decreases outputs.len(),
{
    if outputs.len() > 0 {
        lemma_fresh_keeps(slots, outputs.drop_last(), now);
        assert(with_fresh(slots, outputs, now).take(slots.len() as int) =~= slots);
    } else {
        assert(slots.take(slots.len() as int) =~= slots);
    }
}

proof fn lemma_dropped_keys(slots: Seq<OutputSlot>, outputs: Seq<OutputSpec>, i: int)
    requires
        0 <= i < slots.len(),
    ensures
        !configured(outputs, slots[i].id@) ==> dropped_keys(slots, outputs).contains(slots[i].key),
    decreases slots.len(),
{
    let keys = dropped_keys(slots, outputs);
    let front = slots.drop_last();
    if !configured(outputs, slots[i].id@) {
        if i == slots.len() - 1 {
            assert(keys.last() == slots[i].key);
            assert(keys[keys.len() - 1] == slots[i].key);
        } else {
            lemma_dropped_keys(front, outputs, i);
            let before = dropped_keys(front, outputs);
            let k = choose|k: int| 0 <= k < before.len() && before[k] == slots[i].key;
            assert(keys[k] == before[k]);
        }
    }
}

proof fn lemma_key_dropped(slots: Seq<OutputSlot>, outputs: Seq<OutputSpec>, n: int) -> (i: int)
    requires
        0 <= n < dropped_keys(slots, outputs).len(),
    ensures
        0 <= i < slots.len(),
        !configured(outputs, slots[i].id@),
        dropped_keys(slots, outputs)[n] == slots[i].key,
    decreases slots.len(),
{
    let front = slots.drop_last();
    if configured(outputs, slots.last().id@) {
        lemma_key_dropped(front, outputs, n)
    } else if n == dropped_keys(slots, outputs).len() - 1 {
        slots.len() - 1
    } else {
        lemma_key_dropped(front, outputs, n)
    }
}

/// A configuration for another source, or another latency, starts over: the
/// source is opened by the round that follows, and every output after it. For
/// the same ones the capture goes on; an output that stays keeps its stream and
/// is not named among the keys, and one that goes is named.
pub proof fn law_a_configuration_is_taken(
    sup: &mut Supervisor,
    cfg: EngineConfig,
    now: u64,
    keys: Vec<u64>,
    ticking: &mut Supervisor,
    next: TickStep,
    i: int,
    k: int,
    n: int,
)
    requires
        old(sup)@.wf(),
        call_ensures(Supervisor::apply, (sup, cfg, now), keys),
        *old(ticking) == *final(sup),
        call_ensures(Supervisor::begin_tick, (ticking, None::<String>, now), next),
        0 <= i < final(sup)@.outputs.len(),
        old(sup)@.cfg is Some ==> 0 <= k < old(sup)@.outputs.len(),
    ensures
        ({
            let same_session = old(sup)@.cfg is Some && old(sup)@.cfg->0.source@ == cfg.source@
                && old(sup)@.cfg->0.latency_ms == cfg.latency_ms;
            let after = final(sup)@;
            &&& after.cfg == Some(cfg)
            &&& !same_session ==> {
                &&& after.capture is None && after.source_error is None
                &&& next is BuildCapture
                &&& !after.outputs[i].open && after.outputs[i].next_try == now
                &&& keys@.len() == 0
            }
            &&& same_session ==> {
                &&& after.capture == old(sup)@.capture
                &&& configured(cfg.outputs@, old(sup)@.outputs[k].id@) ==> after.outputs.contains(
                    old(sup)@.outputs[k],
                )
                &&& !configured(cfg.outputs@, old(sup)@.outputs[k].id@) ==> keys@.contains(
                    old(sup)@.outputs[k].key,
                ) && !has_slot(after.outputs, old(sup)@.outputs[k].id@)
                &&& configured(cfg.outputs@, old(sup)@.outputs[k].id@) && old(sup)@.outputs[k].open
                    && 0 <= n < keys@.len() ==> keys@[n] != old(sup)@.outputs[k].key
            }
        }),
        forall|o: int|
            0 <= o < cfg.outputs@.len() ==> has_slot(
                final(sup)@.outputs,
                (#[trigger] cfg.outputs@[o]).id@,
            ),
{
    let before = old(sup)@;
    let after = final(sup)@;
    if before.rebuilds(cfg) {
        lemma_fresh_slot(Seq::empty(), cfg.outputs@, now, i);
    } else {
        lemma_stays(before, cfg, now, k);
        lemma_dropped_keys(before.outputs, cfg.outputs@, k);
        if !configured(cfg.outputs@, before.outputs[k].id@) && has_slot(
            after.outputs,
            before.outputs[k].id@,
        ) {
            let j = choose|j: int|
                0 <= j < after.outputs.len() && (#[trigger] after.outputs[j]).id@
                    == before.outputs[k].id@;
            assert(configured(cfg.outputs@, after.outputs[j].id@));
        }
        if configured(cfg.outputs@, before.outputs[k].id@) && before.outputs[k].open && 0 <= n
            < keys@.len() {
            let j = lemma_key_dropped(before.outputs, cfg.outputs@, n);
            assert(before.slot_ok(before.outputs[k]));
            assert(before.slot_ok(before.outputs[j]));
            assert(j != k);
            if before.outputs[j].open {
                if j < k {
                    assert(before.outputs[j].key != before.outputs[k].key);
                } else {
                    assert(before.outputs[k].key != before.outputs[j].key);
                }
            }
        }
    }
}

proof fn lemma_stays(
    sup: SupervisorView,
    cfg: EngineConfig,
    now: u64,
    k: int,
)
    requires
        sup.wf(),
        !sup.rebuilds(cfg),
        0 <= k < sup.outputs.len(),
    ensures
        configured(cfg.outputs@, sup.outputs[k].id@) ==> sup.after_apply(
            cfg,
            now,
        ).outputs.contains(sup.outputs[k]),
{
    if configured(cfg.outputs@, sup.outputs[k].id@) {
        law_an_output_that_stays_on_is_not_rebuilt(sup, cfg, now, k);
    }
}

/// Stopping leaves nothing: no capture, no stream, and a panel that shows none;
/// neither does a new supervisor have any.
pub proof fn law_stopping_leaves_nothing(
    sup: &mut Supervisor,
    after: &Supervisor,
    st: Status,
    now: u64,
    fresh: Supervisor,
)
    requires
        call_ensures(Supervisor::stop, (sup,), ()),
        *after == *final(sup),
        call_ensures(Supervisor::publish, (after,), st),
        call_ensures(Supervisor::new, (now,), fresh),
    ensures
        final(sup)@.capture is None && final(sup)@.outputs.len() == 0 && final(sup)@.cfg is None,
        !st.running && st.outputs@.len() == 0 && st.source.state is Idle,
        fresh@.capture is None && fresh@.outputs.len() == 0 && fresh@.cfg is None,
        fresh@.next_source_try == now,
{
}

/// The panel shows each configured output in its place: blocked where it is
/// what is captured, failed with its error, or waiting for its stream.
pub proof fn law_the_panel_shows_each_output(sup: &Supervisor, st: Status, k: int, i: int)
    requires
        sup@.wf(),
        sup@.cfg is Some,
        call_ensures(Supervisor::publish, (sup,), st),
        0 <= k < sup@.cfg->0.outputs@.len(),
        0 <= i < sup@.outputs.len(),
        sup@.outputs[i].id@ == sup@.cfg->0.outputs@[k].id@,
    ensures
        st.running,
        st.outputs@.len() == sup@.cfg->0.outputs@.len(),
        ({
            let shown = st.outputs@[k];
            let slot = sup@.outputs[i];
            &&& shown.id@ == sup@.cfg->0.outputs@[k].id@
            &&& slot.blocked <==> shown.state is Blocked
            &&& !slot.blocked && slot.open ==> shown.state is Buffering && shown.format
                == slot.format && shown.message is None
            &&& !slot.blocked && !slot.open && slot.error is Some ==> shown.state is Error
                && shown.message == slot.error
            &&& !slot.blocked && !slot.open && slot.error is None ==> shown.message is None && (
            shown.state is Starting <==> sup@.capture is Some) && (shown.state is Idle
                <==> sup@.capture is None)
            &&& !slot.open ==> shown.format is None
            &&& shown.peak == 0
        }),
{
    let shown = st.outputs@[k];
    assert(Supervisor::shows(
        shown,
        sup@.cfg->0.outputs@[k].id,
        sup@.outputs[i],
        sup@.capture is Some,
    ));
}

/// No more outputs are served than there may be, and each by its own slot.
pub proof fn law_outputs_are_served_by_their_slots(
    sup: &Supervisor,
    n: usize,
    output: usize,
    i: usize,
)
    requires
        call_ensures(Supervisor::output_count, (sup,), n),
        call_ensures(Supervisor::slot_of, (sup, output), i),
        sup@.cfg is Some,
        output < n,
    ensures
        n <= 64 && n <= sup@.cfg->0.outputs@.len(),
        n == 64 || n == sup@.cfg->0.outputs@.len(),
        sup@.outputs[i as int].id@ == sup@.cfg->0.outputs@[output as int].id@,
{
}

/// An incident that passes is no failure; a device that is gone and an access
/// that is denied are named, and anything else is told as it came.
pub proof fn law_only_a_lasting_fault_is_told(error: StreamError, text: &str, r: Option<String>)
    requires
        call_ensures(fault_message, (error, text), r),
    ensures
        r is None <==> error is Xrun || error is RealtimeDenied || error is DeviceChanged,
        error is DeviceNotAvailable ==> r->0@ == "Device disconnected"@,
        error is PermissionDenied ==> r->0@ == "Access denied by the system"@,
        error is Other ==> r->0@ == text@,
{
}

/// A queue keeps the rates and channels of both its ends, and the latency it is
/// given unless that is too small to play.
pub proof fn law_a_queue_keeps_both_formats(
    in_rate: u32,
    in_channels: usize,
    out_rate: u32,
    out_channels: usize,
    target: usize,
    r: PipeFormat,
)
    requires
        call_ensures(pipe_format, (in_rate, in_channels, out_rate, out_channels, target), r),
    ensures
        r.in_rate == in_rate && r.in_channels == in_channels,
        r.out_rate == out_rate && r.out_channels == out_channels,
        r.target_frames >= target && r.target_frames >= 64,
        r.target_frames == target || r.target_frames == 64,
{
}

/// A format is shown by its rate, its layout and its samples.
pub proof fn law_a_format_is_shown(
    rate: u32,
    channels: usize,
    fmt: &str,
    khz: &str,
    r: String,
    told: String,
)
    requires
        call_ensures(describe, (rate, channels, fmt), r),
        call_ensures(describe_as, (khz, channels, fmt), told),
        khz@ == kilohertz(rate as nat),
    ensures
        r@ == told@,
        channels == 1 ==> told@ == khz@ + " kHz, "@ + "mono"@ + ", "@ + fmt@,
        channels == 2 ==> told@ == khz@ + " kHz, "@ + "stereo"@ + ", "@ + fmt@,
        channels == 6 ==> told@ == khz@ + " kHz, "@ + "5.1"@ + ", "@ + fmt@,
        channels == 8 ==> told@ == khz@ + " kHz, "@ + "7.1"@ + ", "@ + fmt@,
        channels != 1 && channels != 2 && channels != 6 && channels != 8 ==> told@ == khz@
            + " kHz, "@ + (decimal(channels as nat) + " channels"@) + ", "@ + fmt@,
{
}

proof fn lemma_without_contains(
    entries: Seq<(u64, Producer<u32>)>,
    key: u64,
    e: (u64, Producer<u32>),
)
    ensures
        without(entries, key).contains(e) <==> entries.contains(e) && e.0 != key,
        without(entries, key).len() <= entries.len(),
    decreases entries.len(),
{
    if entries.len() > 0 {
        let front = entries.drop_last();
        lemma_without_contains(front, key, e);
        assert(entries =~= front.push(entries.last()));
        let rest = without(front, key);
        let all = without(entries, key);
        if entries.contains(e) {
            let i = choose|i: int| 0 <= i < entries.len() && entries[i] == e;
            if i < front.len() {
                assert(front[i] == e);
            }
        }
        if front.contains(e) {
            let i = choose|i: int| 0 <= i < front.len() && front[i] == e;
            assert(entries[i] == e);
        }
        if entries.last().0 != key {
            assert(all[all.len() - 1] == entries.last());
            if rest.contains(e) {
                let i = choose|i: int| 0 <= i < rest.len() && rest[i] == e;
                assert(all[i] == e);
            }
            if all.contains(e) {
                let i = choose|i: int| 0 <= i < all.len() && all[i] == e;
                if i < rest.len() {
                    assert(rest[i] == e);
                } else {
                    assert(entries[entries.len() - 1] == e);
                }
            }
        }
    }
}

/// A queue is fed from the command that adds it on, and no more from the one
/// that removes it; the other queues are fed as before. One key has one queue,
/// the last that was added.
pub proof fn law_a_queue_is_fed_until_it_is_removed(
    adding: &mut Sinks,
    key: u64,
    p: Producer<u32>,
    removing: &mut Sinks,
    e: (u64, Producer<u32>),
)
    requires
        old(adding).entries@.len() < 64,
        call_ensures(Sinks::handle, (adding, CaptureCmd::Add(key, p)), ()),
        call_ensures(Sinks::handle, (removing, CaptureCmd::Remove(key)), ()),
    ensures
        final(adding).entries@.contains((key, p)),
        e.0 == key && e.1 != p ==> !final(adding).entries@.contains(e),
        e.0 == key ==> !final(removing).entries@.contains(e),
        e.0 != key ==> (final(adding).entries@.contains(e) <==> old(adding).entries@.contains(e)),
        e.0 != key ==> (final(removing).entries@.contains(e) <==> old(removing).entries@.contains(e)),
{
    lemma_without_contains(old(adding).entries@, key, e);
    lemma_without_contains(old(removing).entries@, key, e);
    let rest = without(old(adding).entries@, key);
    let all = final(adding).entries@;
    assert(all[all.len() - 1] == (key, p));
    if rest.contains(e) {
        let i = choose|i: int| 0 <= i < rest.len() && rest[i] == e;
        assert(all[i] == e);
    }
    if all.contains(e) {
        let i = choose|i: int| 0 <= i < all.len() && all[i] == e;
        if i < rest.len() {
            assert(rest[i] == e);
        }
    }
}

/// Commands are carried out in the order in which they were sent, one at a time.
pub proof fn law_commands_are_carried_out_in_order(
    sinks: &mut Sinks,
    commands: &mut Consumer<CaptureCmd>,
    r: bool,
    direct: &mut Sinks,
)
    requires
        call_ensures(Sinks::handle_next, (sinks, commands), r),
        waiting(*old(commands)).len() > 0,
        old(direct).entries@ == old(sinks).entries@,
        call_ensures(Sinks::handle, (direct, waiting(*old(commands))[0]), ()),
    ensures
        r,
        final(sinks).entries@ == final(direct).entries@,
        waiting(*final(commands)) == waiting(*old(commands)).skip(1),
{
}

/// Every queue is fed with the captured samples from the first on, in whole
/// frames: with all that there are where they fit.
pub proof fn law_every_queue_is_fed(
    sinks: &mut Sinks,
    samples: &[u32],
    channels: usize,
    i: int,
    written_now: Seq<u32>,
)
    requires
        channels > 0,
        call_ensures(Sinks::fan_out, (sinks, samples, channels), ()),
        0 <= i < old(sinks).entries@.len(),
        written_now == written(final(sinks).entries@[i].1).skip(
            written(old(sinks).entries@[i].1).len() as int,
        ),
    ensures
        final(sinks).entries@.len() == old(sinks).entries@.len(),
        final(sinks).entries@[i].0 == old(sinks).entries@[i].0,
        written(final(sinks).entries@[i].1) == written(old(sinks).entries@[i].1) + written_now,
        written_now.is_prefix_of(samples@),
        written_now.len() % channels as nat == 0,
        room(old(sinks).entries@[i].1) >= samples@.len() && samples@.len() % channels as nat == 0
            ==> written_now == samples@,
        room(old(sinks).entries@[i].1) >= channels && samples@.len() >= channels
            ==> written_now.len() > 0,
{
    let before = old(sinks).entries@[i];
    let after = final(sinks).entries@[i];
    assert(fed(before, after, samples@, channels as nat));
    let seen = choose|seen: nat| fed_with(before, after, samples@, channels as nat, seen);
    let n = pushable(seen, samples@.len(), channels as nat);
    crate::dsp::lemma_pushable(seen, samples@.len(), channels as nat);
    assert(written_now =~= samples@.take(n as int));
    assert(samples@.take(samples@.len() as int) =~= samples@);
}

/// The meters of the outputs are shown with them, in order, and the peak of the
/// source with it; an output that plays is shown as its thread reports.
pub proof fn law_meters_are_shown_with_their_outputs(
    st: Status,
    source_peak: u32,
    meters: &Vec<Option<(u32, PlayState)>>,
    r: Status,
    i: int,
)
    requires
        call_ensures(Status::with_meters, (st, source_peak, meters), r),
        0 <= i < st.outputs@.len(),
    ensures
        r.running == st.running,
        r.source.peak == source_peak && r.source.state == st.source.state,
        r.outputs@.len() == st.outputs@.len(),
        r.outputs@[i].id == st.outputs@[i].id,
        r.outputs@[i].message == st.outputs@[i].message,
        r.outputs@[i].format == st.outputs@[i].format,
        meters@[i] is None ==> r.outputs@[i] == st.outputs@[i],
        meters@[i] matches Some((peak, play)) ==> {
            let active = st.outputs@[i].state is Buffering || st.outputs@[i].state is Playing;
            &&& r.outputs@[i].peak == peak
            &&& active ==> (r.outputs@[i].state is Playing <==> play is Playing)
            &&& active ==> (r.outputs@[i].state is Buffering <==> play is Buffering)
            &&& !active ==> r.outputs@[i].state == st.outputs@[i].state
        },
{
}

/// Nothing runs at first, no queue is fed, and a copy is what it was made of.
pub proof fn law_nothing_is_fed_at_first(st: Status, sinks: Sinks, slot: &OutputSlot, copy: OutputSlot)
    requires
        call_ensures(Status::default, (), st),
        call_ensures(Sinks::new, (), sinks),
        call_ensures(OutputSlot::clone, (slot,), copy),
    ensures
        !st.running && st.outputs@.len() == 0 && st.source.state is Idle,
        sinks.entries@.len() == 0,
        copy == *slot,
{
}

} // verus!
