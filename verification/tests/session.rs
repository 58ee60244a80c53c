//! The supervisor against a scripted backend with no audio hardware.

use audio_mirror::audio::message::{Kind, Message};
use audio_mirror::audio::session::{
    may_run_again, slot_is_due, Action, Slot, Supervisor, MONITOR_RETRY, PANIC_RESTARTS, TICK,
};
use audio_mirror::audio::{
    CaptureState, EngineConfig, MonitorInit, MonitorState, NodeState, OutputSpec, Status,
    SystemEvent,
};
use audio_mirror::controls::ControlTable;
use std::collections::{HashMap, HashSet};

const ONE: u32 = 0x3f80_0000;
const TEST_RETRY: u64 = 60_000_000;
const SLOW: u64 = 30_000_000_000;

fn playing() -> MonitorState {
    MonitorState::Playing {
        format: "48 kHz, stereo".to_string(),
    }
}

fn lost() -> MonitorState {
    MonitorState::Reconnecting(Message::from(Kind::DeviceDisconnected))
}

/// A backend with no audio hardware, scripted by the test.
struct Fake {
    /// Devices whose monitor refuses to open, and why.
    refusing: HashMap<String, Kind>,
    /// Devices the source records.
    captured: HashSet<String>,
    /// Every monitor that was asked for, in order, so rebuilds can be counted.
    built: Vec<String>,
    live: HashMap<String, (u64, MonitorState)>,
    capture: CaptureState,
    captures_started: usize,
    /// Monitors left to blow up on.
    panics_left: u32,
    follows_default: bool,
    next_callback: u64,
}

/// The supervisor, its controls and the backend, on a clock of their own.
struct Engine {
    sup: Supervisor,
    table: ControlTable,
    fake: Fake,
    now: u64,
    panics: u32,
    status: Status,
}

impl Engine {
    fn with_retry(retry: u64) -> Engine {
        Engine {
            sup: Supervisor::new(retry),
            table: ControlTable::new(),
            fake: Fake {
                refusing: HashMap::new(),
                captured: HashSet::new(),
                built: Vec::new(),
                live: HashMap::new(),
                capture: CaptureState::Starting,
                captures_started: 0,
                panics_left: 0,
                follows_default: false,
                next_callback: 1,
            },
            now: 1_000_000_000_000,
            panics: 0,
            status: Status::default(),
        }
    }

    fn built(&self, device: &str) -> usize {
        self.fake.built.iter().filter(|d| *d == device).count()
    }

    fn lose_device(&mut self, device: &str) {
        self.fake.live.get_mut(device).unwrap().1 = lost();
    }

    /// Performs actions in order; false where the backend blew up.
    fn perform(&mut self, actions: Vec<Action>) -> bool {
        for action in actions {
            match action {
                Action::OpenCapture { .. } => {
                    self.fake.captures_started += 1;
                    self.fake.capture = CaptureState::Active {
                        format: "48 kHz, stereo".to_string(),
                    };
                    self.sup
                        .capture_opened(Ok(self.fake.capture.clone()), self.now);
                }
                Action::CloseCapture => {}
                Action::CloseMonitor { id, callback } => {
                    if self.fake.live.get(&id).map(|m| m.0) == Some(callback) {
                        self.fake.live.remove(&id);
                    }
                }
                Action::OpenMonitor { id, .. } => {
                    self.fake.built.push(id.clone());
                    if self.fake.panics_left > 0 {
                        self.fake.panics_left -= 1;
                        return false;
                    }
                    let outcome = if self.fake.captured.contains(&id) {
                        Ok(MonitorInit::Ignored)
                    } else if let Some(why) = self.fake.refusing.get(&id) {
                        Err(Message::from(*why))
                    } else {
                        let callback = self.fake.next_callback;
                        self.fake.next_callback += 1;
                        self.fake.live.insert(id.clone(), (callback, playing()));
                        Ok(MonitorInit::Active {
                            callback,
                            state: playing(),
                        })
                    };
                    assert!(self.sup.is_awaiting(&id));
                    self.sup.monitor_opened(id, outcome, self.now);
                }
            }
        }
        true
    }

    /// Performs actions, and puts the supervisor back on its feet where the
    /// backend blew up.
    fn run(&mut self, actions: Vec<Action>) {
        let mut actions = actions;
        while !self.perform(actions) {
            self.panics += 1;
            assert!(may_run_again(self.panics));
            actions = self.sup.restart(&self.table.ids());
        }
        self.tick();
    }

    fn apply(&mut self, cfg: EngineConfig) {
        self.table.replace(&cfg.outputs);
        let actions = self.sup.apply(cfg, &self.table.ids());
        self.run(actions);
    }

    fn readings(&self) -> Vec<Option<MonitorState>> {
        match &self.sup.session {
            Some(session) => session
                .slots
                .iter()
                .map(|o| match &o.slot {
                    Slot::Active { .. } => Some(self.fake.live[&o.id].1.clone()),
                    _ => None,
                })
                .collect(),
            None => Vec::new(),
        }
    }

    fn fire(&mut self, event: SystemEvent) {
        let readings = self.readings();
        let follows = self.fake.follows_default;
        let actions = self
            .sup
            .system(event, follows, &readings, &self.table.ids(), self.now);
        self.run(actions);
    }

    fn tick(&mut self) {
        let readings = self.readings();
        let capture = self.fake.capture.clone();
        let actions = self
            .sup
            .tick(&capture, &readings, &self.table.ids(), self.now);
        assert!(self.perform(actions));
        self.status = self.sup.publish(self.status.source.peak, 0);
    }

    /// Lets time pass, a tick at a time, until `done` holds.
    fn eventually(&mut self, what: &str, done: impl Fn(&Engine) -> bool) {
        for _ in 0..60 {
            if done(self) {
                return;
            }
            self.now += TICK;
            self.tick();
        }
        panic!("timed out waiting for {what}");
    }

    fn state(&self, id: &str) -> Option<NodeState> {
        self.status
            .outputs
            .iter()
            .find(|o| o.id == id)
            .map(|o| o.state)
    }
}

fn output(id: &str) -> OutputSpec {
    OutputSpec {
        id: id.to_string(),
        gain: ONE,
        muted: false,
    }
}

fn one_output(id: &str) -> EngineConfig {
    EngineConfig {
        source: "input:fake".to_string(),
        outputs: vec![output(id)],
    }
}

#[test]
fn a_monitor_whose_device_dies_is_rebuilt_and_plays_again() {
    let mut engine = Engine::with_retry(TEST_RETRY);
    engine.apply(one_output("out"));
    engine.eventually("the output to play", |e| {
        e.state("out") == Some(NodeState::Playing)
    });
    assert_eq!(engine.built("out"), 1);

    engine.lose_device("out");
    engine.tick();
    assert_eq!(engine.state("out"), Some(NodeState::Error));
    engine.eventually("the monitor to be rebuilt", |e| e.built("out") >= 2);
    engine.eventually("the output to play again", |e| {
        e.state("out") == Some(NodeState::Playing)
    });
}

#[test]
fn an_output_that_cannot_be_opened_is_retried_until_it_works() {
    let mut engine = Engine::with_retry(TEST_RETRY);
    engine
        .fake
        .refusing
        .insert("out".to_string(), Kind::DeviceUnavailable);
    engine.apply(one_output("out"));
    engine.eventually("the failure to show", |e| {
        e.state("out") == Some(NodeState::Error)
    });
    assert_eq!(
        engine.status.outputs[0].message,
        Some(Message::from(Kind::DeviceUnavailable))
    );

    engine.eventually("a retry", |e| e.built("out") >= 2);
    engine.fake.refusing.remove("out");
    engine.eventually("the output to come back", |e| {
        e.state("out") == Some(NodeState::Playing)
    });
}

#[test]
fn the_output_the_source_records_is_left_alone() {
    let mut engine = Engine::with_retry(TEST_RETRY);
    engine.fake.captured.insert("out".to_string());
    engine.apply(one_output("out"));
    engine.eventually("the output to be skipped", |e| {
        e.state("out") == Some(NodeState::Blocked)
    });
    for _ in 0..5 {
        engine.now += TEST_RETRY;
        engine.tick();
    }
    assert_eq!(engine.built("out"), 1);
    assert_eq!(engine.state("out"), Some(NodeState::Blocked));
    assert_eq!(
        engine.status.outputs[0].message,
        Some(Message::from(Kind::CapturedBySource))
    );
}

#[test]
fn a_capture_that_stopped_is_opened_again() {
    let mut engine = Engine::with_retry(TEST_RETRY);
    engine.apply(one_output("out"));
    assert_eq!(engine.fake.captures_started, 1);
    engine.eventually("the source to play", |e| {
        e.status.source.state == NodeState::Playing
    });

    engine.fake.capture = CaptureState::Failed(Message::from(Kind::DeviceDisconnected));
    engine.eventually("the capture to be reopened", |e| {
        e.fake.captures_started >= 2
    });
    engine.eventually("the source to play again", |e| {
        e.status.source.state == NodeState::Playing
    });
}

#[test]
fn a_device_notification_tells_the_panel_to_look_again() {
    let mut engine = Engine::with_retry(TEST_RETRY);
    let before = engine.status.devices_revision;
    engine.fire(SystemEvent::DevicesChanged);
    assert!(engine.status.devices_revision > before);

    engine.apply(one_output("out"));
    engine.eventually("the output to play", |e| {
        e.state("out") == Some(NodeState::Playing)
    });
    let running = engine.status.devices_revision;
    engine.fire(SystemEvent::DefaultOutputChanged);
    assert!(engine.status.devices_revision > running);
}

#[test]
fn a_device_coming_back_is_opened_without_waiting_for_the_retry() {
    let mut engine = Engine::with_retry(SLOW);
    engine
        .fake
        .refusing
        .insert("out".to_string(), Kind::DeviceUnavailable);
    engine.apply(one_output("out"));
    engine.eventually("the failure to show", |e| {
        e.state("out") == Some(NodeState::Error)
    });
    assert_eq!(engine.built("out"), 1);

    engine.fake.refusing.remove("out");
    engine.fire(SystemEvent::DevicesChanged);
    engine.eventually("the output to come back", |e| {
        e.state("out") == Some(NodeState::Playing)
    });
    assert_eq!(engine.built("out"), 2);
}

#[test]
fn a_device_coming_back_under_a_failing_monitor_is_opened_at_once() {
    let mut engine = Engine::with_retry(SLOW);
    engine.apply(one_output("out"));
    engine.eventually("the output to play", |e| {
        e.state("out") == Some(NodeState::Playing)
    });

    engine.lose_device("out");
    engine.tick();
    assert_eq!(engine.state("out"), Some(NodeState::Error));
    assert_eq!(engine.built("out"), 1, "the retry delay has not elapsed");

    engine.fire(SystemEvent::DevicesChanged);
    engine.eventually("the monitor to be rebuilt", |e| e.built("out") >= 2);
    engine.eventually("the output to play again", |e| {
        e.state("out") == Some(NodeState::Playing)
    });
}

#[test]
fn a_default_output_change_rebuilds_every_monitor() {
    let mut engine = Engine::with_retry(TEST_RETRY);
    engine.fake.follows_default = true;
    engine.apply(one_output("out"));
    engine.eventually("the output to play", |e| {
        e.state("out") == Some(NodeState::Playing)
    });

    engine.fire(SystemEvent::DefaultOutputChanged);
    assert!(engine.fake.captures_started >= 2);
    assert!(engine.built("out") >= 2);
}

#[test]
fn a_panic_in_the_supervisor_does_not_take_the_engine_down() {
    let mut engine = Engine::with_retry(TEST_RETRY);
    engine.fake.panics_left = 1;
    engine.apply(one_output("out"));
    engine.eventually("the engine to come back", |e| {
        e.state("out") == Some(NodeState::Playing)
    });
    assert_eq!(engine.panics, 1);

    engine.apply(EngineConfig {
        source: "input:fake".to_string(),
        outputs: vec![],
    });
    assert!(!engine.status.running);
}

#[test]
fn an_output_switched_off_is_dropped_but_the_others_keep_playing() {
    let mut engine = Engine::with_retry(TEST_RETRY);
    let mut cfg = one_output("keep");
    cfg.outputs.push(output("drop"));
    engine.apply(cfg);
    engine.eventually("both outputs to play", |e| {
        e.state("keep") == Some(NodeState::Playing) && e.state("drop") == Some(NodeState::Playing)
    });

    engine.apply(one_output("keep"));
    assert_eq!(engine.state("drop"), None);
    assert_eq!(engine.state("keep"), Some(NodeState::Playing));
    assert_eq!(
        engine.built("keep"),
        1,
        "the output that stayed on is not rebuilt"
    );
    assert!(engine.table.get("drop").is_none());
    assert!(!engine.fake.live.contains_key("drop"));
}

fn active_slot(failing_since: Option<u64>) -> Slot {
    Slot::Active {
        state: lost(),
        callback: 1,
        failing_since,
    }
}

#[test]
fn a_monitor_stuck_on_a_failed_device_is_rebuilt() {
    let now: u64 = 5_000_000_000;
    let millisecond: u64 = 1_000_000;

    let failed = Slot::Failed {
        error: Message::from(Kind::DeviceUnavailable),
        retry_at: now + MONITOR_RETRY,
    };
    assert!(!slot_is_due(&failed, now, MONITOR_RETRY));
    assert!(slot_is_due(&failed, now + MONITOR_RETRY, MONITOR_RETRY));

    assert!(!slot_is_due(
        &active_slot(None),
        now + MONITOR_RETRY * 10,
        MONITOR_RETRY
    ));
    assert!(!slot_is_due(&active_slot(Some(now)), now, MONITOR_RETRY));
    assert!(!slot_is_due(
        &active_slot(Some(now)),
        now + MONITOR_RETRY - millisecond,
        MONITOR_RETRY
    ));
    assert!(slot_is_due(
        &active_slot(Some(now)),
        now + MONITOR_RETRY,
        MONITOR_RETRY
    ));
    assert!(!slot_is_due(
        &Slot::Ignored,
        now + MONITOR_RETRY * 10,
        MONITOR_RETRY
    ));
}

#[test]
fn another_source_closes_everything_first() {
    let mut sup = Supervisor::new(MONITOR_RETRY);
    let mut table = ControlTable::new();
    let first = one_output("a");
    table.replace(&first.outputs);
    let opened = sup.apply(first, &table.ids());
    assert_eq!(
        opened,
        vec![
            Action::OpenCapture {
                source: "input:fake".to_string(),
                fresh: true
            },
            Action::OpenMonitor {
                source: "input:fake".to_string(),
                id: "a".to_string()
            },
        ]
    );
    sup.capture_opened(Ok(CaptureState::Starting), 7);
    sup.monitor_opened(
        "a".to_string(),
        Ok(MonitorInit::Active {
            callback: 9,
            state: playing(),
        }),
        7,
    );
    let second = EngineConfig {
        source: "desktop".to_string(),
        outputs: vec![output("a")],
    };
    let actions = sup.apply(second, &table.ids());
    assert_eq!(
        actions,
        vec![
            Action::CloseMonitor {
                id: "a".to_string(),
                callback: 9
            },
            Action::CloseCapture,
            Action::OpenCapture {
                source: "desktop".to_string(),
                fresh: true
            },
            Action::OpenMonitor {
                source: "desktop".to_string(),
                id: "a".to_string()
            },
        ]
    );
}

#[test]
fn shutting_down_closes_what_is_open() {
    let mut sup = Supervisor::new(MONITOR_RETRY);
    let mut table = ControlTable::new();
    let cfg = one_output("a");
    table.replace(&cfg.outputs);
    sup.apply(cfg, &table.ids());
    sup.capture_opened(Err(Message::from(Kind::DeviceUnavailable)), 0);
    sup.monitor_opened("a".to_string(), Ok(MonitorInit::Ignored), 0);
    let status = sup.publish(0, 0);
    assert_eq!(status.source.state, NodeState::Error);
    assert_eq!(
        status.source.message,
        Some(Message::from(Kind::DeviceUnavailable))
    );
    assert_eq!(sup.shut_down(), vec![Action::CloseCapture]);
    assert_eq!(sup.shut_down(), vec![]);
}

#[test]
fn only_so_many_panics_are_survived() {
    assert!(may_run_again(PANIC_RESTARTS));
    assert!(!may_run_again(PANIC_RESTARTS + 1));
}

#[test]
fn the_peaks_of_outputs_with_controls_are_shown() {
    let mut sup = Supervisor::new(MONITOR_RETRY);
    let mut cfg = one_output("a");
    cfg.outputs.push(output("b"));
    let mut table = ControlTable::new();
    table.replace(&cfg.outputs);
    sup.apply(cfg, &table.ids());
    let mut status = sup.publish(0, 3);
    let shown = status.take_peaks(&vec![Some(5), None]);
    assert_eq!(shown.source.peak, 3);
    assert_eq!(shown.outputs[0].peak, 5);
    assert_eq!(shown.outputs[1].peak, 0);
    assert_eq!(shown.outputs[1].state, NodeState::Starting);
}

#[test]
fn the_source_peak_adds_up_until_it_is_read() {
    let mut sup = Supervisor::new(MONITOR_RETRY);
    let cfg = one_output("a");
    let mut table = ControlTable::new();
    table.replace(&cfg.outputs);
    sup.apply(cfg, &table.ids());
    let mut status = sup.publish(0, 0.25f32.to_bits());
    for heard in [0.75f32, 0.5, 0.0] {
        status = sup.publish(status.source.peak, heard.to_bits());
    }
    assert_eq!(
        f32::from_bits(status.take_peaks(&vec![None]).source.peak),
        0.75
    );
    assert_eq!(status.take_peaks(&vec![None]).source.peak, 0);
    status = sup.publish(status.source.peak, 0.125f32.to_bits());
    assert_eq!(
        f32::from_bits(status.take_peaks(&vec![None]).source.peak),
        0.125
    );
}

#[test]
fn a_capture_that_is_reopened_keeps_its_session() {
    let mut sup = Supervisor::new(MONITOR_RETRY);
    let cfg = one_output("a");
    let mut table = ControlTable::new();
    table.replace(&cfg.outputs);
    sup.apply(cfg, &table.ids());
    sup.capture_opened(Ok(CaptureState::Starting), 0);
    sup.monitor_opened("a".to_string(), Ok(MonitorInit::Ignored), 0);
    let gone = CaptureState::Failed(Message::from(Kind::DeviceDisconnected));
    let actions = sup.tick(&gone, &vec![None], &table.ids(), MONITOR_RETRY * 2);
    assert!(actions.contains(&Action::OpenCapture {
        source: "input:fake".to_string(),
        fresh: false
    }));
}
