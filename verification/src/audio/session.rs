//! What is opened, closed and tried again.
//!
//! A [`Supervisor`] holds the configuration and the running [`Session`]: one
//! source and a slot for each of its outputs. Its methods take what happened
//! and what the devices report, and return the actions to perform, in order.
//! What opening a capture or a monitor came to is handed back with
//! [`Supervisor::capture_opened`] and [`Supervisor::monitor_opened`].
//!
//! Times are nanoseconds of one monotonic clock.

use crate::audio::hub::CallbackId;
use crate::audio::message::{Kind, Message};
use crate::audio::{
    CaptureState, EngineConfig, MonitorInit, MonitorState, NodeState, OutputSpec, OutputStatus,
    SourceStatus, Status, SystemEvent,
};
use crate::float::{raised, raised_to};
use crate::text::same;
use vstd::prelude::*;

verus! {

/// Retry delay for a monitor whose device could not be opened, or that went
/// away while playing.
pub const MONITOR_RETRY: u64 = 3_000_000_000;

/// How often the devices are looked at.
pub const TICK: u64 = 250_000_000;

/// How many times the supervisor is put back on its feet after a panic.
pub const PANIC_RESTARTS: u32 = 3;

/// One output of the running session.
#[derive(Debug, PartialEq, Eq)]
pub enum Slot {
    Active {
        callback: CallbackId,
        /// Refreshed once per tick and read from there afterwards.
        state: MonitorState,
        /// Since when the monitor has been reporting a failed device, so a
        /// backend that cannot reopen it on its own still gets rebuilt.
        failing_since: Option<u64>,
    },
    /// The output is the one the source records.
    Ignored,
    Failed { error: Message, retry_at: u64 },
}

impl Clone for Slot {
    fn clone(&self) -> (r: Self)
        ensures
            r == *self,
    {
        match self {
            Slot::Active { callback, state, failing_since } => Slot::Active {
                callback: *callback,
                state: state.clone(),
                failing_since: *failing_since,
            },
            Slot::Ignored => Slot::Ignored,
            Slot::Failed { error, retry_at } => Slot::Failed {
                error: error.clone(),
                retry_at: *retry_at,
            },
        }
    }
}

/// An output and what became of it.
#[derive(Debug, PartialEq, Eq)]
pub struct Output {
    pub id: String,
    pub slot: Slot,
}

impl Clone for Output {
    fn clone(&self) -> (r: Self)
        ensures
            r == *self,
    {
        Output { id: self.id.clone(), slot: self.slot.clone() }
    }
}

/// Something the platform has to do.
#[derive(Debug, PartialEq, Eq)]
pub enum Action {
    /// Opens the source and hands back what came of it.
    OpenCapture {
        source: String,
        /// With a hub of its own, which nothing was handed to before.
        fresh: bool,
    },
    /// Closes the source.
    CloseCapture,
    /// Unregisters the callback of a monitor and closes its device.
    CloseMonitor { id: String, callback: CallbackId },
    /// Opens an output for the source and hands back what came of it.
    OpenMonitor { source: String, id: String },
}

/// The end of a delay that begins now.
pub open spec fn later(now: u64, delay: u64) -> u64 {
    if now + delay <= u64::MAX {
        (now + delay) as u64
    } else {
        u64::MAX
    }
}

fn add_delay(now: u64, delay: u64) -> (r: u64)
    ensures
        r == later(now, delay),
{
    if delay <= u64::MAX - now {
        now + delay
    } else {
        u64::MAX
    }
}

impl Slot {
    /// Whether the slot must be built again now: a device that could not be
    /// opened and is due for a retry, or a monitor that has been reporting a
    /// failure for a full retry delay.
    pub open spec fn due(self, now: u64, retry: u64) -> bool {
        match self {
            Slot::Failed { retry_at, .. } => now >= retry_at,
            Slot::Active { failing_since: Some(since), .. } => now >= since + retry,
            _ => false,
        }
    }

    /// The slot once its monitor has been asked for its state: a failure is
    /// remembered from the first time it is reported until it is over.
    pub open spec fn observed(self, reading: Option<MonitorState>, now: u64) -> Slot {
        match (self, reading) {
            (Slot::Active { callback, failing_since, .. }, Some(state)) => Slot::Active {
                callback,
                state,
                failing_since: if state is Playing {
                    None
                } else if failing_since is Some {
                    failing_since
                } else {
                    Some(now)
                },
            },
            _ => self,
        }
    }

    /// The slot once the system has said that the devices changed: what is
    /// failing is due at once.
    pub open spec fn woken(self, reading: Option<MonitorState>, now: u64, retry: u64) -> Slot {
        match (self, reading) {
            (Slot::Failed { error, .. }, _) => Slot::Failed { error, retry_at: now },
            (Slot::Active { callback, failing_since, .. }, Some(state)) => Slot::Active {
                callback,
                state,
                failing_since: if state is Reconnecting && now >= retry {
                    Some((now - retry) as u64)
                } else {
                    failing_since
                },
            },
            _ => self,
        }
    }

    /// The slot that opening a monitor leads to.
    pub open spec fn built(outcome: Result<MonitorInit, Message>, now: u64, retry: u64) -> Slot {
        match outcome {
            Ok(MonitorInit::Active { callback, state }) => Slot::Active {
                callback,
                state,
                failing_since: None,
            },
            Ok(MonitorInit::Ignored) => Slot::Ignored,
            Err(error) => Slot::Failed { error, retry_at: later(now, retry) },
        }
    }

    fn observe(&self, reading: &Option<MonitorState>, now: u64) -> (r: Slot)
        ensures
            r == self.observed(*reading, now),
    {
        match self {
            Slot::Active { callback, failing_since, .. } => match reading {
                Some(state) => {
                    let since: Option<u64> = match state {
                        MonitorState::Playing { .. } => None,
                        MonitorState::Reconnecting(_) => match failing_since {
                            Some(t) => Some(*t),
                            None => Some(now),
                        },
                    };
                    Slot::Active { callback: *callback, state: state.clone(), failing_since: since }
                },
                None => self.clone(),
            },
            _ => self.clone(),
        }
    }

    fn wake(&self, reading: &Option<MonitorState>, now: u64, retry: u64) -> (r: Slot)
        ensures
            r == self.woken(*reading, now, retry),
    {
        match self {
            Slot::Failed { error, .. } => Slot::Failed { error: error.clone(), retry_at: now },
            Slot::Active { callback, failing_since, .. } => match reading {
                Some(state) => {
                    let since: Option<u64> = match state {
                        MonitorState::Reconnecting(_) => if now >= retry {
                            Some(now - retry)
                        } else {
                            *failing_since
                        },
                        MonitorState::Playing { .. } => *failing_since,
                    };
                    Slot::Active { callback: *callback, state: state.clone(), failing_since: since }
                },
                None => self.clone(),
            },
            Slot::Ignored => Slot::Ignored,
        }
    }
}

/// Whether a slot must be built again now.
pub fn slot_is_due(slot: &Slot, now: u64, retry: u64) -> (r: bool)
    ensures
        r == slot.due(now, retry),
{
    match slot {
        Slot::Failed { retry_at, .. } => now >= *retry_at,
        Slot::Active { failing_since, .. } => match failing_since {
            Some(since) => now >= *since && now - *since >= retry,
            None => false,
        },
        Slot::Ignored => false,
    }
}

/// One source and its monitors.
#[derive(Debug, PartialEq, Eq)]
pub struct Session {
    pub source: String,
    /// Whether the capture is open, and why not.
    pub capture: Result<(), Message>,
    /// Refreshed once per tick and read from there afterwards.
    pub capture_state: CaptureState,
    pub capture_retry_at: u64,
    pub slots: Vec<Output>,
}

/// What a session is made of.
pub struct SessionView {
    pub source: String,
    pub capture: Result<(), Message>,
    pub capture_state: CaptureState,
    pub capture_retry_at: u64,
    pub slots: Seq<Output>,
}

impl View for Session {
    type V = SessionView;

    open spec fn view(&self) -> SessionView {
        SessionView {
            source: self.source,
            capture: self.capture,
            capture_state: self.capture_state,
            capture_retry_at: self.capture_retry_at,
            slots: self.slots@,
        }
    }
}

/// Whether an output of that id is configured.
pub open spec fn configured(outputs: Seq<OutputSpec>, id: Seq<char>) -> bool {
    exists|i: int| 0 <= i < outputs.len() && (#[trigger] outputs[i]).id@ == id
}

/// Whether an id is in a list.
pub open spec fn listed(ids: Seq<String>, id: Seq<char>) -> bool {
    exists|i: int| 0 <= i < ids.len() && (#[trigger] ids[i])@ == id
}

/// Whether there is a slot for an output of that id.
pub open spec fn has_slot(slots: Seq<Output>, id: Seq<char>) -> bool {
    exists|i: int| 0 <= i < slots.len() && (#[trigger] slots[i]).id@ == id
}

/// The slot of an output.
pub open spec fn find_slot(slots: Seq<Output>, id: Seq<char>) -> Option<Slot>
    decreases slots.len(),
{
    if slots.len() == 0 {
        None
    } else if slots[0].id@ == id {
        Some(slots[0].slot)
    } else {
        find_slot(slots.drop_first(), id)
    }
}

/// No output has two slots.
pub open spec fn distinct(slots: Seq<Output>) -> bool {
    forall|i: int, j: int|
        0 <= i < j < slots.len() ==> (#[trigger] slots[i]).id@ != (#[trigger] slots[j]).id@
}

/// The slots that are not marked as leaving.
pub open spec fn staying(slots: Seq<Output>, leaving: Seq<bool>) -> Seq<Output>
    decreases slots.len(),
{
    if slots.len() == 0 {
        Seq::empty()
    } else if leaving[slots.len() - 1] {
        staying(slots.drop_last(), leaving)
    } else {
        staying(slots.drop_last(), leaving).push(slots.last())
    }
}

/// What closing one slot takes: only a running monitor has anything to close.
pub open spec fn close_of(output: Output) -> Seq<Action> {
    match output.slot {
        Slot::Active { callback, .. } => seq![Action::CloseMonitor { id: output.id, callback }],
        _ => Seq::empty(),
    }
}

/// Closes the slots that are leaving.
pub open spec fn closing(slots: Seq<Output>, leaving: Seq<bool>) -> Seq<Action>
    decreases slots.len(),
{
    if slots.len() == 0 {
        Seq::empty()
    } else if leaving[slots.len() - 1] {
        closing(slots.drop_last(), leaving) + close_of(slots.last())
    } else {
        closing(slots.drop_last(), leaving)
    }
}

/// Closes each of the slots that are leaving and opens it again: a device
/// that accepts a single client is released first.
pub open spec fn reopening(slots: Seq<Output>, leaving: Seq<bool>, source: String) -> Seq<Action>
    decreases slots.len(),
{
    if slots.len() == 0 {
        Seq::empty()
    } else if leaving[slots.len() - 1] {
        reopening(slots.drop_last(), leaving, source) + close_of(slots.last()).push(
            Action::OpenMonitor { source, id: slots.last().id },
        )
    } else {
        reopening(slots.drop_last(), leaving, source)
    }
}

/// The outputs to open: each configured output once, unless it has a slot
/// already or nothing controls it.
pub open spec fn opening(
    outputs: Seq<OutputSpec>,
    slots: Seq<Output>,
    controls: Seq<String>,
    source: String,
) -> Seq<Action>
    decreases outputs.len(),
{
    if outputs.len() == 0 {
        Seq::empty()
    } else {
        let front = outputs.drop_last();
        let id = outputs.last().id;
        let before = opening(front, slots, controls, source);
        if has_slot(slots, id@) || configured(front, id@) || !listed(controls, id@) {
            before
        } else {
            before.push(Action::OpenMonitor { source, id })
        }
    }
}

fn is_configured(outputs: &Vec<OutputSpec>, count: usize, id: &str) -> (r: bool)
    requires
        count <= outputs@.len(),
    ensures
        r == configured(outputs@.take(count as int), id@),
{
    let mut i: usize = 0;
    while i < count
        invariant
            i <= count <= outputs@.len(),
            forall|k: int| 0 <= k < i ==> (#[trigger] outputs@[k]).id@ != id@,
        decreases count - i,
    {
        if same(outputs[i].id.as_str(), id) {
            assert(outputs@.take(count as int)[i as int].id@ == id@);
            return true;
        }
        i += 1;
    }
    false
}

fn is_listed(ids: &Vec<String>, id: &str) -> (r: bool)
    ensures
        r == listed(ids@, id@),
{
    let mut i: usize = 0;
    while i < ids.len()
        invariant
            i <= ids@.len(),
            forall|k: int| 0 <= k < i ==> (#[trigger] ids@[k])@ != id@,
        decreases ids@.len() - i,
    {
        if same(ids[i].as_str(), id) {
            return true;
        }
        i += 1;
    }
    false
}

fn slot_index(slots: &Vec<Output>, id: &str) -> (r: Option<usize>)
    ensures
        match r {
            Some(i) => i < slots@.len() && slots@[i as int].id@ == id@ && find_slot(slots@, id@)
                == Some(slots@[i as int].slot),
            None => find_slot(slots@, id@) is None && !has_slot(slots@, id@),
        },
{
    let mut i: usize = 0;
    assert(slots@.skip(0) =~= slots@);
    while i < slots.len()
        invariant
            i <= slots@.len(),
            find_slot(slots@, id@) == find_slot(slots@.skip(i as int), id@),
            forall|k: int| 0 <= k < i ==> (#[trigger] slots@[k]).id@ != id@,
        decreases slots@.len() - i,
    {
        if same(slots[i].id.as_str(), id) {
            return Some(i);
        }
        assert(slots@.skip(i as int).drop_first() =~= slots@.skip(i + 1));
        i += 1;
    }
    None
}

fn push_close(actions: &mut Vec<Action>, output: &Output)
    ensures
        final(actions)@ == old(actions)@ + close_of(*output),
{
    match &output.slot {
        Slot::Active { callback, .. } => {
            actions.push(Action::CloseMonitor { id: output.id.clone(), callback: *callback });
        },
        _ => {},
    }
    assert(actions@ =~= old(actions)@ + close_of(*output));
}

fn keep_staying(slots: &Vec<Output>, leaving: &Vec<bool>) -> (r: Vec<Output>)
    requires
        leaving@.len() == slots@.len(),
    ensures
        r@ == staying(slots@, leaving@),
{
    let mut out: Vec<Output> = Vec::new();
    let mut i: usize = 0;
    while i < slots.len()
        invariant
            i <= slots@.len(),
            leaving@.len() == slots@.len(),
            out@ == staying(slots@.take(i as int), leaving@),
        decreases slots@.len() - i,
    {
        assert(slots@.take(i + 1).drop_last() =~= slots@.take(i as int));
        if !leaving[i] {
            out.push(slots[i].clone());
        }
        i += 1;
    }
    assert(slots@.take(i as int) =~= slots@);
    out
}

fn push_closing(actions: &mut Vec<Action>, slots: &Vec<Output>, leaving: &Vec<bool>)
    requires
        leaving@.len() == slots@.len(),
    ensures
        final(actions)@ == old(actions)@ + closing(slots@, leaving@),
{
    let mut i: usize = 0;
    assert(actions@ =~= old(actions)@ + closing(slots@.take(0), leaving@));
    while i < slots.len()
        invariant
            i <= slots@.len(),
            leaving@.len() == slots@.len(),
            actions@ == old(actions)@ + closing(slots@.take(i as int), leaving@),
        decreases slots@.len() - i,
    {
        assert(slots@.take(i + 1).drop_last() =~= slots@.take(i as int));
        if leaving[i] {
            push_close(actions, &slots[i]);
            assert(actions@ =~= old(actions)@ + closing(slots@.take(i + 1), leaving@));
        }
        i += 1;
    }
    assert(slots@.take(i as int) =~= slots@);
}

fn push_reopening(
    actions: &mut Vec<Action>,
    slots: &Vec<Output>,
    leaving: &Vec<bool>,
    source: &String,
)
    requires
        leaving@.len() == slots@.len(),
    ensures
        final(actions)@ == old(actions)@ + reopening(slots@, leaving@, *source),
{
    let mut i: usize = 0;
    assert(actions@ =~= old(actions)@ + reopening(slots@.take(0), leaving@, *source));
    while i < slots.len()
        invariant
            i <= slots@.len(),
            leaving@.len() == slots@.len(),
            actions@ == old(actions)@ + reopening(slots@.take(i as int), leaving@, *source),
        decreases slots@.len() - i,
    {
        assert(slots@.take(i + 1).drop_last() =~= slots@.take(i as int));
        if leaving[i] {
            push_close(actions, &slots[i]);
            actions.push(Action::OpenMonitor { source: source.clone(), id: slots[i].id.clone() });
            assert(actions@ =~= old(actions)@ + reopening(
                slots@.take(i + 1),
                leaving@,
                *source,
            ));
        }
        i += 1;
    }
    assert(slots@.take(i as int) =~= slots@);
}

fn push_opening(
    actions: &mut Vec<Action>,
    outputs: &Vec<OutputSpec>,
    slots: &Vec<Output>,
    controls: &Vec<String>,
    source: &String,
)
    ensures
        final(actions)@ == old(actions)@ + opening(outputs@, slots@, controls@, *source),
{
    let mut i: usize = 0;
    assert(actions@ =~= old(actions)@ + opening(outputs@.take(0), slots@, controls@, *source));
    while i < outputs.len()
        invariant
            i <= outputs@.len(),
            actions@ == old(actions)@ + opening(
                outputs@.take(i as int),
                slots@,
                controls@,
                *source,
            ),
        decreases outputs@.len() - i,
    {
        let id = outputs[i].id.as_str();
        assert(outputs@.take(i + 1).drop_last() =~= outputs@.take(i as int));
        let present = match slot_index(slots, id) {
            Some(k) => {
                assert(has_slot(slots@, id@));
                true
            },
            None => false,
        };
        if !present && !is_configured(outputs, i, id) && is_listed(controls, id) {
            actions.push(
                Action::OpenMonitor { source: source.clone(), id: outputs[i].id.clone() },
            );
            assert(actions@ =~= old(actions)@ + opening(
                outputs@.take(i + 1),
                slots@,
                controls@,
                *source,
            ));
        }
        i += 1;
    }
    assert(outputs@.take(i as int) =~= outputs@);
}

/// The supervisor of the running session.
#[derive(Debug, PartialEq, Eq)]
pub struct Supervisor {
    /// How long a failed capture or monitor waits before being opened again.
    pub retry: u64,
    /// Counts the system's device notifications, published for the panel.
    pub devices_revision: u64,
    pub cfg: Option<EngineConfig>,
    pub session: Option<Session>,
}

/// What a supervisor holds.
pub struct SupervisorView {
    pub retry: u64,
    pub devices_revision: u64,
    pub cfg: Option<EngineConfig>,
    pub session: Option<SessionView>,
}

impl View for Supervisor {
    type V = SupervisorView;

    open spec fn view(&self) -> SupervisorView {
        SupervisorView {
            retry: self.retry,
            devices_revision: self.devices_revision,
            cfg: self.cfg,
            session: match self.session {
                Some(session) => Some(session@),
                None => None,
            },
        }
    }
}

/// Marks every slot.
pub open spec fn everything(slots: Seq<Output>) -> Seq<bool> {
    Seq::new(slots.len(), |i: int| true)
}

/// Marks the slots whose output is not configured any more.
pub open spec fn stale(slots: Seq<Output>, outputs: Seq<OutputSpec>) -> Seq<bool> {
    Seq::new(slots.len(), |i: int| !configured(outputs, slots[i].id@))
}

/// Marks the slots whose output has controls.
pub open spec fn controlled(slots: Seq<Output>, controls: Seq<String>) -> Seq<bool> {
    Seq::new(slots.len(), |i: int| listed(controls, slots[i].id@))
}

/// Marks the slots to build again now.
pub open spec fn rebuilding(
    slots: Seq<Output>,
    controls: Seq<String>,
    now: u64,
    retry: u64,
) -> Seq<bool> {
    Seq::new(
        slots.len(),
        |i: int| slots[i].slot.due(now, retry) && listed(controls, slots[i].id@),
    )
}

/// The slots once every monitor has been asked for its state.
pub open spec fn observed_slots(
    slots: Seq<Output>,
    readings: Seq<Option<MonitorState>>,
    now: u64,
) -> Seq<Output> {
    Seq::new(
        slots.len(),
        |i: int| Output { id: slots[i].id, slot: slots[i].slot.observed(readings[i], now) },
    )
}

/// The slots once the devices have changed.
pub open spec fn woken_slots(
    slots: Seq<Output>,
    readings: Seq<Option<MonitorState>>,
    now: u64,
    retry: u64,
) -> Seq<Output> {
    Seq::new(
        slots.len(),
        |i: int| Output { id: slots[i].id, slot: slots[i].slot.woken(readings[i], now, retry) },
    )
}

impl SessionView {
    /// A session whose capture is still to be opened.
    pub open spec fn fresh(source: String) -> SessionView {
        SessionView {
            source,
            capture: Err(Kind::WaitingForDevice.plain()),
            capture_state: CaptureState::Starting,
            capture_retry_at: 0,
            slots: Seq::empty(),
        }
    }

    /// A capture that could not be opened at all reads as one that stopped.
    pub open spec fn capture_reading(self, reading: CaptureState) -> CaptureState {
        match self.capture {
            Ok(_) => reading,
            Err(e) => CaptureState::Failed(e),
        }
    }

    /// The session while its capture is being opened again.
    pub open spec fn reopening_capture(self) -> SessionView {
        SessionView { capture: Err(Kind::WaitingForDevice.plain()), ..self }
    }

    /// Closes the capture and opens it again.
    pub open spec fn capture_reopening(self) -> Seq<Action> {
        seq![Action::CloseCapture, Action::OpenCapture { source: self.source, fresh: false }]
    }

    /// Closes every monitor and the capture.
    pub open spec fn shutting(self) -> Seq<Action> {
        closing(self.slots, everything(self.slots)).push(Action::CloseCapture)
    }

    /// The capture once it has been asked for its state: whether it is to be
    /// opened again, and when it may be at the latest.
    pub open spec fn capture_due(self, reading: CaptureState, now: u64) -> bool {
        self.capture_reading(reading) is Failed && now >= self.capture_retry_at
    }

    pub open spec fn after_tick(
        self,
        reading: CaptureState,
        readings: Seq<Option<MonitorState>>,
        controls: Seq<String>,
        now: u64,
        retry: u64,
    ) -> SessionView {
        let state = self.capture_reading(reading);
        let slots = observed_slots(self.slots, readings, now);
        SessionView {
            source: self.source,
            capture: if self.capture_due(reading, now) {
                Err(Kind::WaitingForDevice.plain())
            } else {
                self.capture
            },
            capture_state: state,
            capture_retry_at: if state is Failed {
                self.capture_retry_at
            } else {
                later(now, retry)
            },
            slots: staying(slots, rebuilding(slots, controls, now, retry)),
        }
    }

    pub open spec fn tick_actions(
        self,
        reading: CaptureState,
        readings: Seq<Option<MonitorState>>,
        controls: Seq<String>,
        now: u64,
        retry: u64,
    ) -> Seq<Action> {
        let slots = observed_slots(self.slots, readings, now);
        (if self.capture_due(reading, now) {
            self.capture_reopening()
        } else {
            Seq::empty()
        }) + reopening(slots, rebuilding(slots, controls, now, retry), self.source)
    }
}

impl SupervisorView {
    /// There is a session exactly where there is a configuration with
    /// outputs; it captures the configured source, and has at most one slot
    /// for each configured output and none for any other.
    pub open spec fn wf(self) -> bool {
        match (self.cfg, self.session) {
            (None, None) => true,
            (Some(cfg), Some(session)) => {
                &&& cfg.outputs@.len() > 0
                &&& session.source@ == cfg.source@
                &&& distinct(session.slots)
                &&& forall|i: int|
                    0 <= i < session.slots.len() ==> configured(
                        cfg.outputs@,
                        (#[trigger] session.slots[i]).id@,
                    )
            },
            _ => false,
        }
    }

    /// Closes whatever is open.
    pub open spec fn shutting(self) -> Seq<Action> {
        match self.session {
            Some(session) => session.shutting(),
            None => Seq::empty(),
        }
    }

    /// Whether a configuration needs another capture than the running one.
    pub open spec fn starts_over(self, cfg: EngineConfig) -> bool {
        match self.session {
            Some(session) => session.source@ != cfg.source@,
            None => true,
        }
    }

    pub open spec fn after_apply(self, cfg: EngineConfig) -> SupervisorView {
        if cfg.outputs@.len() == 0 {
            SupervisorView { cfg: None, session: None, ..self }
        } else if self.starts_over(cfg) {
            SupervisorView {
                cfg: Some(cfg),
                session: Some(SessionView::fresh(cfg.source)),
                ..self
            }
        } else {
            let session = self.session->0;
            SupervisorView {
                cfg: Some(cfg),
                session: Some(
                    SessionView {
                        slots: staying(session.slots, stale(session.slots, cfg.outputs@)),
                        ..session
                    },
                ),
                ..self
            }
        }
    }

    pub open spec fn apply_actions(self, cfg: EngineConfig, controls: Seq<String>) -> Seq<Action> {
        if cfg.outputs@.len() == 0 {
            self.shutting()
        } else if self.starts_over(cfg) {
            self.shutting().push(Action::OpenCapture { source: cfg.source, fresh: true }) + opening(
                cfg.outputs@,
                Seq::empty(),
                controls,
                cfg.source,
            )
        } else {
            let session = self.session->0;
            let leaving = stale(session.slots, cfg.outputs@);
            closing(session.slots, leaving) + opening(
                cfg.outputs@,
                staying(session.slots, leaving),
                controls,
                session.source,
            )
        }
    }

    /// With everything closed.
    pub open spec fn closed_down(self) -> SupervisorView {
        SupervisorView { session: None, ..self }
    }

    pub open spec fn after_restart(self) -> SupervisorView {
        match self.cfg {
            Some(cfg) => self.closed_down().after_apply(cfg),
            None => self,
        }
    }

    pub open spec fn restart_actions(self, controls: Seq<String>) -> Seq<Action> {
        match self.cfg {
            Some(cfg) => self.shutting() + self.closed_down().apply_actions(cfg, controls),
            None => Seq::empty(),
        }
    }

    pub open spec fn after_system(
        self,
        event: SystemEvent,
        follows: bool,
        readings: Seq<Option<MonitorState>>,
        controls: Seq<String>,
        now: u64,
    ) -> SupervisorView {
        SupervisorView {
            devices_revision: (self.devices_revision + 1) as u64,
            session: match self.session {
                None => None,
                Some(session) => match event {
                    SystemEvent::DefaultOutputChanged => {
                        let kept = SessionView {
                            slots: staying(
                                session.slots,
                                controlled(session.slots, controls),
                            ),
                            ..session
                        };
                        if session.capture is Ok && follows {
                            Some(kept.reopening_capture())
                        } else {
                            Some(kept)
                        }
                    },
                    SystemEvent::DevicesChanged => Some(
                        SessionView {
                            slots: woken_slots(session.slots, readings, now, self.retry),
                            capture_retry_at: now,
                            ..session
                        },
                    ),
                },
            },
            ..self
        }
    }

    pub open spec fn system_actions(
        self,
        event: SystemEvent,
        follows: bool,
        controls: Seq<String>,
    ) -> Seq<Action> {
        match (self.session, event) {
            (Some(session), SystemEvent::DefaultOutputChanged) => {
                (if session.capture is Ok && follows {
                    session.capture_reopening()
                } else {
                    Seq::empty()
                }) + reopening(session.slots, controlled(session.slots, controls), session.source)
            },
            _ => Seq::empty(),
        }
    }

    pub open spec fn after_tick(
        self,
        reading: CaptureState,
        readings: Seq<Option<MonitorState>>,
        controls: Seq<String>,
        now: u64,
    ) -> SupervisorView {
        SupervisorView {
            session: match self.session {
                None => None,
                Some(session) => Some(
                    session.after_tick(reading, readings, controls, now, self.retry),
                ),
            },
            ..self
        }
    }

    pub open spec fn tick_actions(
        self,
        reading: CaptureState,
        readings: Seq<Option<MonitorState>>,
        controls: Seq<String>,
        now: u64,
    ) -> Seq<Action> {
        match self.session {
            None => Seq::empty(),
            Some(session) => session.tick_actions(reading, readings, controls, now, self.retry),
        }
    }

    /// Whether an output is configured and has no slot: it is being opened.
    pub open spec fn awaits(self, id: Seq<char>) -> bool {
        match (self.cfg, self.session) {
            (Some(cfg), Some(session)) => configured(cfg.outputs@, id) && !has_slot(
                session.slots,
                id,
            ),
            _ => false,
        }
    }

    /// Whether `st` is what the panel shows, given the peak that was not read
    /// yet and the one heard since.
    pub open spec fn published(self, unread: u32, heard: u32, st: &Status) -> bool {
        &&& st.devices_revision == self.devices_revision
        &&& match (self.cfg, self.session) {
            (Some(cfg), Some(session)) => {
                &&& st.running
                &&& st.source == Supervisor::source_shown(
                    session.capture_state,
                    raised_to(unread, heard),
                )
                &&& st.outputs@ == Seq::new(
                    cfg.outputs@.len(),
                    |i: int|
                        Supervisor::output_shown(
                            cfg.outputs@[i].id,
                            find_slot(session.slots, cfg.outputs@[i].id@),
                        ),
                )
            },
            _ => st.stopped(),
        }
    }

    /// Whether there is a reading for each slot.
    pub open spec fn covered(self, readings: Seq<Option<MonitorState>>) -> bool {
        self.session matches Some(session) ==> readings.len() == session.slots.len()
    }
}

proof fn lemma_staying(slots: Seq<Output>, leaving: Seq<bool>)
    requires
        leaving.len() >= slots.len(),
    ensures
        forall|k: int|
            0 <= k < staying(slots, leaving).len() ==> exists|i: int|
                0 <= i < slots.len() && !leaving[i] && (#[trigger] staying(slots, leaving)[k])
                    == #[trigger] slots[i],
        forall|i: int|
            0 <= i < slots.len() && !leaving[i] ==> staying(slots, leaving).contains(
                #[trigger] slots[i],
            ),
        distinct(slots) ==> distinct(staying(slots, leaving)),
    decreases slots.len(),
{
    if slots.len() > 0 {
        let front = slots.drop_last();
        let kept = staying(front, leaving);
        let all = staying(slots, leaving);
        lemma_staying(front, leaving);
        assert forall|k: int| 0 <= k < all.len() implies exists|i: int|
            0 <= i < slots.len() && !leaving[i] && (#[trigger] all[k]) == #[trigger] slots[i] by {
            if k < kept.len() {
                assert(all[k] == kept[k]);
                let i = choose|i: int|
                    0 <= i < front.len() && !leaving[i] && kept[k] == #[trigger] front[i];
                assert(slots[i] == front[i]);
            } else {
                assert(slots[slots.len() - 1] == all[k]);
            }
        }
        assert forall|i: int| 0 <= i < slots.len() && !leaving[i] implies all.contains(
            #[trigger] slots[i],
        ) by {
            if i < front.len() {
                assert(front[i] == slots[i]);
                assert(kept.contains(front[i]));
                let k = choose|k: int| 0 <= k < kept.len() && kept[k] == front[i];
                assert(all[k] == slots[i]);
            } else {
                assert(all[all.len() - 1] == slots[i]);
            }
        }
        if distinct(slots) {
            assert(distinct(front)) by {
                assert forall|i: int, j: int| 0 <= i < j < front.len() implies (
                #[trigger] front[i]).id@ != (#[trigger] front[j]).id@ by {
                    assert(slots[i].id@ != slots[j].id@);
                }
            }
            assert forall|a: int, b: int| 0 <= a < b < all.len() implies (#[trigger] all[a]).id@
                != (#[trigger] all[b]).id@ by {
                assert(all[a] == kept[a]);
                if b < kept.len() {
                    assert(all[b] == kept[b]);
                } else {
                    let i = choose|i: int|
                        0 <= i < front.len() && !leaving[i] && kept[a] == #[trigger] front[i];
                    assert(slots[i] == front[i]);
                    assert(all[b] == slots[slots.len() - 1]);
                    assert(slots[i].id@ != slots[slots.len() - 1].id@);
                }
            }
        }
    }
}

impl Supervisor {
    pub fn new(retry: u64) -> (s: Self)
        ensures
            s@ == (SupervisorView { retry, devices_revision: 0, cfg: None, session: None }),
            s@.wf(),
    {
        Supervisor { retry, devices_revision: 0, cfg: None, session: None }
    }

    fn push_shutting(&self, actions: &mut Vec<Action>)
        ensures
            final(actions)@ == old(actions)@ + self@.shutting(),
    {
        match &self.session {
            Some(session) => {
                let leaving: Vec<bool> = vec![true;session.slots.len()];
                assert(leaving@ =~= everything(session.slots@));
                push_closing(actions, &session.slots, &leaving);
                actions.push(Action::CloseCapture);
                assert(actions@ =~= old(actions)@ + self@.shutting());
            },
            None => {
                assert(actions@ =~= old(actions)@ + self@.shutting());
            },
        }
    }

    /// Starts, updates or stops mirroring. No output means stopped.
    pub fn apply(&mut self, cfg: EngineConfig, controls: &Vec<String>) -> (actions: Vec<Action>)
        requires
            old(self)@.wf(),
        ensures
            final(self)@ == old(self)@.after_apply(cfg),
            actions@ == old(self)@.apply_actions(cfg, controls@),
            final(self)@.wf(),
    {
        let mut actions: Vec<Action> = Vec::new();
        if cfg.outputs.len() == 0 {
            self.push_shutting(&mut actions);
            self.session = None;
            self.cfg = None;
            assert(actions@ =~= old(self)@.apply_actions(cfg, controls@));
            return actions;
        }
        let running = match &self.session {
            Some(session) => same(session.source.as_str(), cfg.source.as_str()),
            None => false,
        };
        if !running {
            self.push_shutting(&mut actions);
            actions.push(Action::OpenCapture { source: cfg.source.clone(), fresh: true });
            let slots: Vec<Output> = Vec::new();
            push_opening(&mut actions, &cfg.outputs, &slots, controls, &cfg.source);
            assert(slots@ =~= Seq::<Output>::empty());
            self.session = Some(
                Session {
                    source: cfg.source.clone(),
                    capture: Err(Message::from(Kind::WaitingForDevice)),
                    capture_state: CaptureState::Starting,
                    capture_retry_at: 0,
                    slots,
                },
            );
            assert(actions@ =~= old(self)@.apply_actions(cfg, controls@));
        } else if let Some(session) = &mut self.session {
            let ghost before = session@;
            let mut leaving: Vec<bool> = Vec::new();
            let mut i: usize = 0;
            while i < session.slots.len()
                invariant
                    i <= session.slots@.len(),
                    session@ == before,
                    leaving@ == stale(before.slots, cfg.outputs@).take(i as int),
                decreases session.slots@.len() - i,
            {
                let kept = is_configured(&cfg.outputs, cfg.outputs.len(), session.slots[i].id.as_str());
                assert(cfg.outputs@.take(cfg.outputs@.len() as int) =~= cfg.outputs@);
                leaving.push(!kept);
                assert(leaving@ =~= stale(before.slots, cfg.outputs@).take(i + 1));
                i += 1;
            }
            assert(leaving@ =~= stale(before.slots, cfg.outputs@));
            push_closing(&mut actions, &session.slots, &leaving);
            let kept = keep_staying(&session.slots, &leaving);
            proof {
                lemma_staying(before.slots, leaving@);
            }
            session.slots = kept;
            push_opening(&mut actions, &cfg.outputs, &session.slots, controls, &session.source);
            assert(actions@ =~= old(self)@.apply_actions(cfg, controls@));
        }
        self.cfg = Some(cfg);
        actions
    }

    /// What opening the capture came to.
    pub fn capture_opened(&mut self, outcome: Result<CaptureState, Message>, now: u64)
        requires
            old(self)@.wf(),
            old(self)@.session is Some,
        ensures
            final(self)@ == (SupervisorView {
                session: Some(
                    SessionView {
                        capture: match outcome {
                            Ok(_) => Ok(()),
                            Err(e) => Err(e),
                        },
                        capture_state: match outcome {
                            Ok(state) => state,
                            Err(e) => CaptureState::Failed(e),
                        },
                        capture_retry_at: later(now, old(self)@.retry),
                        ..old(self)@.session->0
                    },
                ),
                ..old(self)@
            }),
            final(self)@.wf(),
    {
        let retry_at: u64 = add_delay(now, self.retry);
        if let Some(session) = &mut self.session {
            match outcome {
                Ok(state) => {
                    session.capture = Ok(());
                    session.capture_state = state;
                },
                Err(e) => {
                    session.capture_state = CaptureState::Failed(e.clone());
                    session.capture = Err(e);
                },
            }
            session.capture_retry_at = retry_at;
        }
    }

    /// Whether an output is configured and has no slot: it is being opened.
    pub fn is_awaiting(&self, id: &str) -> (r: bool)
        ensures
            r == self@.awaits(id@),
    {
        match (&self.cfg, &self.session) {
            (Some(cfg), Some(session)) => {
                assert(cfg.outputs@.take(cfg.outputs@.len() as int) =~= cfg.outputs@);
                is_configured(&cfg.outputs, cfg.outputs.len(), id) && match slot_index(
                    &session.slots,
                    id,
                ) {
                    Some(k) => {
                        assert(has_slot(session.slots@, id@));
                        false
                    },
                    None => true,
                }
            },
            _ => false,
        }
    }

    /// What opening an output came to.
    pub fn monitor_opened(&mut self, id: String, outcome: Result<MonitorInit, Message>, now: u64)
        requires
            old(self)@.wf(),
            old(self)@.awaits(id@),
        ensures
            final(self)@ == (SupervisorView {
                session: Some(
                    SessionView {
                        slots: old(self)@.session->0.slots.push(
                            Output { id, slot: Slot::built(outcome, now, old(self)@.retry) },
                        ),
                        ..old(self)@.session->0
                    },
                ),
                ..old(self)@
            }),
            final(self)@.wf(),
    {
        let slot = match outcome {
            Ok(MonitorInit::Active { callback, state }) => Slot::Active {
                callback,
                state,
                failing_since: None,
            },
            Ok(MonitorInit::Ignored) => Slot::Ignored,
            Err(error) => Slot::Failed { error, retry_at: add_delay(now, self.retry) },
        };
        if let Some(session) = &mut self.session {
            let ghost before = session.slots@;
            session.slots.push(Output { id, slot });
            proof {
                let after = session.slots@;
                assert forall|i: int, j: int| 0 <= i < j < after.len() implies (
                #[trigger] after[i]).id@ != (#[trigger] after[j]).id@ by {
                    assert(after[i] == before[i]);
                    if j < before.len() {
                        assert(after[j] == before[j]);
                    }
                }
                assert forall|i: int| 0 <= i < after.len() implies configured(
                    old(self)@.cfg->0.outputs@,
                    (#[trigger] after[i]).id@,
                ) by {
                    if i < before.len() {
                        assert(after[i] == before[i]);
                    }
                }
            }
        }
    }

    /// Closes the capture and every output, then opens them again with the
    /// current settings.
    pub fn restart(&mut self, controls: &Vec<String>) -> (actions: Vec<Action>)
        requires
            old(self)@.wf(),
        ensures
            final(self)@ == old(self)@.after_restart(),
            actions@ == old(self)@.restart_actions(controls@),
            final(self)@.wf(),
    {
        let mut actions: Vec<Action> = Vec::new();
        match self.cfg.take() {
            Some(cfg) => {
                self.push_shutting(&mut actions);
                let ghost shut = actions@;
                self.session = None;
                let mut rest = self.apply(cfg, controls);
                actions.append(&mut rest);
                assert(actions@ =~= old(self)@.restart_actions(controls@));
            },
            None => {
                assert(actions@ =~= old(self)@.restart_actions(controls@));
            },
        }
        actions
    }

    /// Closes whatever is open; the configuration is kept.
    pub fn shut_down(&mut self) -> (actions: Vec<Action>)
        ensures
            final(self)@ == old(self)@.closed_down(),
            actions@ == old(self)@.shutting(),
    {
        let mut actions: Vec<Action> = Vec::new();
        self.push_shutting(&mut actions);
        self.session = None;
        assert(actions@ =~= old(self)@.shutting());
        actions
    }

    /// The system says something changed. `follows` is what the open capture
    /// answers when the default output changes, and `readings` what the
    /// monitors of the slots report, in order.
    pub fn system(
        &mut self,
        event: SystemEvent,
        follows: bool,
        readings: &Vec<Option<MonitorState>>,
        controls: &Vec<String>,
        now: u64,
    ) -> (actions: Vec<Action>)
        requires
            old(self)@.wf(),
            old(self)@.covered(readings@),
            old(self)@.devices_revision < u64::MAX,
        ensures
            final(self)@ == old(self)@.after_system(event, follows, readings@, controls@, now),
            actions@ == old(self)@.system_actions(event, follows, controls@),
            final(self)@.wf(),
    {
        self.devices_revision = self.devices_revision + 1;
        let retry: u64 = self.retry;
        let mut actions: Vec<Action> = Vec::new();
        if let Some(session) = &mut self.session {
            let ghost before = session@;
            match event {
                SystemEvent::DefaultOutputChanged => {
                    let reopen = session.capture.is_ok() && follows;
                    if reopen {
                        actions.push(Action::CloseCapture);
                        actions.push(
                            Action::OpenCapture { source: session.source.clone(), fresh: false },
                        );
                        session.capture = Err(Message::from(Kind::WaitingForDevice));
                    }
                    let mut leaving: Vec<bool> = Vec::new();
                    let mut i: usize = 0;
                    while i < session.slots.len()
                        invariant
                            i <= session.slots@.len(),
                            session.slots@ == before.slots,
                            leaving@ == controlled(before.slots, controls@).take(i as int),
                        decreases session.slots@.len() - i,
                    {
                        leaving.push(is_listed(controls, session.slots[i].id.as_str()));
                        assert(leaving@ =~= controlled(before.slots, controls@).take(i + 1));
                        i += 1;
                    }
                    assert(leaving@ =~= controlled(before.slots, controls@));
                    push_reopening(&mut actions, &session.slots, &leaving, &session.source);
                    let kept = keep_staying(&session.slots, &leaving);
                    proof {
                        lemma_staying(before.slots, leaving@);
                    }
                    session.slots = kept;
                },
                SystemEvent::DevicesChanged => {
                    let mut slots: Vec<Output> = Vec::new();
                    let mut i: usize = 0;
                    while i < session.slots.len()
                        invariant
                            i <= session.slots@.len(),
                            session@ == before,
                            readings@.len() == before.slots.len(),
                            slots@ == woken_slots(before.slots, readings@, now, retry).take(
                                i as int,
                            ),
                        decreases session.slots@.len() - i,
                    {
                        let slot = session.slots[i].slot.wake(&readings[i], now, retry);
                        slots.push(Output { id: session.slots[i].id.clone(), slot });
                        assert(slots@ =~= woken_slots(before.slots, readings@, now, retry).take(
                            i + 1,
                        ));
                        i += 1;
                    }
                    assert(slots@ =~= woken_slots(before.slots, readings@, now, retry));
                    proof {
                        lemma_same_ids(before.slots, slots@, old(self)@.cfg->0.outputs@);
                    }
                    session.slots = slots;
                    session.capture_retry_at = now;
                },
            }
        }
        assert(actions@ =~= old(self)@.system_actions(event, follows, controls@));
        actions
    }

    /// Looks at the devices: `reading` is what the open capture reports and
    /// `readings` what the monitors of the slots do, in order. A capture that
    /// stopped and the slots that are due are opened again.
    pub fn tick(
        &mut self,
        reading: &CaptureState,
        readings: &Vec<Option<MonitorState>>,
        controls: &Vec<String>,
        now: u64,
    ) -> (actions: Vec<Action>)
        requires
            old(self)@.wf(),
            old(self)@.covered(readings@),
        ensures
            final(self)@ == old(self)@.after_tick(*reading, readings@, controls@, now),
            actions@ == old(self)@.tick_actions(*reading, readings@, controls@, now),
            final(self)@.wf(),
    {
        let retry: u64 = self.retry;
        let mut actions: Vec<Action> = Vec::new();
        if let Some(session) = &mut self.session {
            let ghost before = session@;
            let state = match &session.capture {
                Ok(_) => reading.clone(),
                Err(e) => CaptureState::Failed(e.clone()),
            };
            let failed = match &state {
                CaptureState::Failed(_) => true,
                _ => false,
            };
            session.capture_state = state;
            if !failed {
                session.capture_retry_at = add_delay(now, retry);
            } else if now >= session.capture_retry_at {
                actions.push(Action::CloseCapture);
                actions.push(
                    Action::OpenCapture { source: session.source.clone(), fresh: false },
                );
                session.capture = Err(Message::from(Kind::WaitingForDevice));
            }
            let ghost capture_actions = actions@;
            let mut slots: Vec<Output> = Vec::new();
            let mut i: usize = 0;
            while i < session.slots.len()
                invariant
                    i <= session.slots@.len(),
                    session.slots@ == before.slots,
                    readings@.len() == before.slots.len(),
                    slots@ == observed_slots(before.slots, readings@, now).take(i as int),
                decreases session.slots@.len() - i,
            {
                let slot = session.slots[i].slot.observe(&readings[i], now);
                slots.push(Output { id: session.slots[i].id.clone(), slot });
                assert(slots@ =~= observed_slots(before.slots, readings@, now).take(i + 1));
                i += 1;
            }
            assert(slots@ =~= observed_slots(before.slots, readings@, now));
            let mut leaving: Vec<bool> = Vec::new();
            let mut k: usize = 0;
            while k < slots.len()
                invariant
                    k <= slots@.len(),
                    leaving@ == rebuilding(slots@, controls@, now, retry).take(k as int),
                decreases slots@.len() - k,
            {
                let due = slot_is_due(&slots[k].slot, now, retry);
                leaving.push(due && is_listed(controls, slots[k].id.as_str()));
                assert(leaving@ =~= rebuilding(slots@, controls@, now, retry).take(k + 1));
                k += 1;
            }
            assert(leaving@ =~= rebuilding(slots@, controls@, now, retry));
            push_reopening(&mut actions, &slots, &leaving, &session.source);
            let kept = keep_staying(&slots, &leaving);
            proof {
                lemma_same_ids(before.slots, slots@, old(self)@.cfg->0.outputs@);
                lemma_staying(slots@, leaving@);
            }
            session.slots = kept;
        }
        assert(actions@ =~= old(self)@.tick_actions(*reading, readings@, controls@, now));
        actions
    }

    /// What the panel shows of the capture.
    pub open spec fn source_shown(state: CaptureState, peak: u32) -> SourceStatus {
        match state {
            CaptureState::Starting => SourceStatus {
                state: NodeState::Starting,
                message: None,
                format: None,
                peak,
            },
            CaptureState::Active { format } => SourceStatus {
                state: NodeState::Playing,
                message: None,
                format: Some(format),
                peak,
            },
            CaptureState::Retrying(why) | CaptureState::Failed(why) => SourceStatus {
                state: NodeState::Error,
                message: Some(why),
                format: None,
                peak,
            },
        }
    }

    /// What the panel shows of an output.
    pub open spec fn output_shown(id: String, slot: Option<Slot>) -> OutputStatus {
        match slot {
            Some(Slot::Active { state: MonitorState::Playing { format }, .. }) => OutputStatus {
                id,
                state: NodeState::Playing,
                message: None,
                format: Some(format),
                peak: 0,
            },
            Some(Slot::Active { state: MonitorState::Reconnecting(why), .. }) => OutputStatus {
                id,
                state: NodeState::Error,
                message: Some(why),
                format: None,
                peak: 0,
            },
            Some(Slot::Ignored) => OutputStatus {
                id,
                state: NodeState::Blocked,
                message: Some(Kind::CapturedBySource.plain()),
                format: None,
                peak: 0,
            },
            Some(Slot::Failed { error, .. }) => OutputStatus {
                id,
                state: NodeState::Error,
                message: Some(error),
                format: None,
                peak: 0,
            },
            None => OutputStatus {
                id,
                state: NodeState::Starting,
                message: None,
                format: None,
                peak: 0,
            },
        }
    }

    fn show_output(id: &String, slot: Option<&Slot>) -> (r: OutputStatus)
        ensures
            r == Self::output_shown(
                *id,
                match slot {
                    Some(s) => Some(*s),
                    None => None,
                },
            ),
    {
        let mut shown = OutputStatus {
            id: id.clone(),
            state: NodeState::Starting,
            message: None,
            format: None,
            peak: 0,
        };
        if let Some(slot) = slot {
            match slot {
                Slot::Active { state, .. } => match state {
                    MonitorState::Playing { format } => {
                        shown.state = NodeState::Playing;
                        shown.format = Some(format.clone());
                    },
                    MonitorState::Reconnecting(why) => {
                        shown.state = NodeState::Error;
                        shown.message = Some(why.clone());
                    },
                },
                Slot::Ignored => {
                    shown.state = NodeState::Blocked;
                    shown.message = Some(Message::from(Kind::CapturedBySource));
                },
                Slot::Failed { error, .. } => {
                    shown.state = NodeState::Error;
                    shown.message = Some(error.clone());
                },
            }
        }
        shown
    }

    /// What the panel shows, the outputs in the order of the configuration.
    /// `unread` is the peak of the source that was published and not read yet,
    /// and `heard` its peak since then: the greater of the two is shown.
    pub fn publish(&self, unread: u32, heard: u32) -> (st: Status)
        ensures
            self@.published(unread, heard, &st),
    {
        let peak: u32 = raised(unread, heard);
        let (cfg, session) = match (&self.cfg, &self.session) {
            (Some(cfg), Some(session)) => (cfg, session),
            _ => {
                let mut st = Status::default();
                st.devices_revision = self.devices_revision;
                return st;
            },
        };
        let source = match &session.capture_state {
            CaptureState::Starting => SourceStatus {
                state: NodeState::Starting,
                message: None,
                format: None,
                peak,
            },
            CaptureState::Active { format } => SourceStatus {
                state: NodeState::Playing,
                message: None,
                format: Some(format.clone()),
                peak,
            },
            CaptureState::Retrying(why) => SourceStatus {
                state: NodeState::Error,
                message: Some(why.clone()),
                format: None,
                peak,
            },
            CaptureState::Failed(why) => SourceStatus {
                state: NodeState::Error,
                message: Some(why.clone()),
                format: None,
                peak,
            },
        };
        let ghost shown = Seq::new(
            cfg.outputs@.len(),
            |i: int|
                Self::output_shown(
                    cfg.outputs@[i].id,
                    find_slot(session.slots@, cfg.outputs@[i].id@),
                ),
        );
        let mut outputs: Vec<OutputStatus> = Vec::new();
        let mut i: usize = 0;
        while i < cfg.outputs.len()
            invariant
                i <= cfg.outputs@.len(),
                shown == Seq::new(
                    cfg.outputs@.len(),
                    |i: int|
                        Self::output_shown(
                            cfg.outputs@[i].id,
                            find_slot(session.slots@, cfg.outputs@[i].id@),
                        ),
                ),
                outputs@ == shown.take(i as int),
            decreases cfg.outputs@.len() - i,
        {
            let id = &cfg.outputs[i].id;
            let slot = match slot_index(&session.slots, id.as_str()) {
                Some(k) => Some(&session.slots[k].slot),
                None => None,
            };
            outputs.push(Self::show_output(id, slot));
            assert(outputs@ =~= shown.take(i + 1));
            i += 1;
        }
        assert(outputs@ =~= shown);
        Status { running: true, source, outputs, devices_revision: self.devices_revision }
    }
}

/// Slots that keep their ids stay distinct and configured.
proof fn lemma_same_ids(before: Seq<Output>, after: Seq<Output>, outputs: Seq<OutputSpec>)
    requires
        before.len() == after.len(),
        forall|i: int|
            0 <= i < before.len() ==> (#[trigger] after[i]).id == (#[trigger] before[i]).id,
        distinct(before),
        forall|i: int| 0 <= i < before.len() ==> configured(outputs, (#[trigger] before[i]).id@),
    ensures
        distinct(after),
        forall|i: int| 0 <= i < after.len() ==> configured(outputs, (#[trigger] after[i]).id@),
{
    assert forall|i: int, j: int| 0 <= i < j < after.len() implies (#[trigger] after[i]).id@ != (
    #[trigger] after[j]).id@ by {
        assert(before[i].id@ != before[j].id@);
    }
    assert forall|i: int| 0 <= i < after.len() implies configured(
        outputs,
        (#[trigger] after[i]).id@,
    ) by {
        assert(configured(outputs, before[i].id@));
    }
}

/// Whether the supervisor is put back on its feet once it has panicked that
/// many times.
pub fn may_run_again(panics: u32) -> (r: bool)
    ensures
        r == (panics <= PANIC_RESTARTS),
{
    panics <= PANIC_RESTARTS
}

} // verus!
