//! What holds of every session, whatever the devices do.

use crate::audio::message::Message;
use crate::audio::session::{
    close_of, closing, configured, distinct, everything, find_slot, has_slot, later, listed,
    observed_slots, opening, rebuilding, reopening, stale, staying, woken_slots, Action, Output,
    SessionView, Slot, Supervisor, SupervisorView,
};
use crate::audio::{
    CaptureState, EngineConfig, MonitorInit, MonitorState, NodeState, OutputSpec, Status,
    SystemEvent,
};
use crate::float::{INFINITY, ZERO};
use vstd::prelude::*;

verus! {

/// Whether an action opens or closes the output of that id.
pub open spec fn touches(action: Action, id: Seq<char>) -> bool {
    match action {
        Action::OpenMonitor { id: other, .. } => other@ == id,
        Action::CloseMonitor { id: other, .. } => other@ == id,
        _ => false,
    }
}

/// Whether none of the actions opens or closes the output of that id.
pub open spec fn leaves_alone(actions: Seq<Action>, id: Seq<char>) -> bool {
    forall|k: int| 0 <= k < actions.len() ==> !touches(#[trigger] actions[k], id)
}

/// Whether the actions open the output of that id for the source.
pub open spec fn opens(actions: Seq<Action>, source: String, id: String) -> bool {
    actions.contains(Action::OpenMonitor { source, id })
}

proof fn lemma_reopening_touches_leaving(
    slots: Seq<Output>,
    leaving: Seq<bool>,
    source: String,
    id: Seq<char>,
)
    requires
        leaving.len() >= slots.len(),
        forall|i: int| 0 <= i < slots.len() && leaving[i] ==> (#[trigger] slots[i]).id@ != id,
    ensures
        leaves_alone(reopening(slots, leaving, source), id),
    decreases slots.len(),
{
    if slots.len() > 0 {
        let front = slots.drop_last();
        assert forall|i: int| 0 <= i < front.len() && leaving[i] implies (#[trigger] front[i]).id@
            != id by {
            assert(slots[i] == front[i]);
        }
        lemma_reopening_touches_leaving(front, leaving, source, id);
        assert(slots[slots.len() - 1] == slots.last());
    }
}

proof fn lemma_closing_touches_leaving(slots: Seq<Output>, leaving: Seq<bool>, id: Seq<char>)
    requires
        leaving.len() >= slots.len(),
        forall|i: int| 0 <= i < slots.len() && leaving[i] ==> (#[trigger] slots[i]).id@ != id,
    ensures
        leaves_alone(closing(slots, leaving), id),
    decreases slots.len(),
{
    if slots.len() > 0 {
        let front = slots.drop_last();
        assert forall|i: int| 0 <= i < front.len() && leaving[i] implies (#[trigger] front[i]).id@
            != id by {
            assert(slots[i] == front[i]);
        }
        lemma_closing_touches_leaving(front, leaving, id);
        assert(slots[slots.len() - 1] == slots.last());
    }
}

proof fn lemma_reopening_opens(
    slots: Seq<Output>,
    leaving: Seq<bool>,
    source: String,
    i: int,
)
    requires
        leaving.len() >= slots.len(),
        0 <= i < slots.len(),
        leaving[i],
    ensures
        opens(reopening(slots, leaving, source), source, slots[i].id),
    decreases slots.len(),
{
    let front = slots.drop_last();
    let before = reopening(front, leaving, source);
    let all = reopening(slots, leaving, source);
    let wanted = Action::OpenMonitor { source, id: slots[i].id };
    if i == slots.len() - 1 {
        assert(all[all.len() - 1] == wanted);
    } else {
        lemma_reopening_opens(front, leaving, source, i);
        let k = choose|k: int| 0 <= k < before.len() && before[k] == wanted;
        assert(all[k] == wanted);
    }
}

proof fn lemma_closing_closes(slots: Seq<Output>, leaving: Seq<bool>, i: int)
    requires
        leaving.len() >= slots.len(),
        0 <= i < slots.len(),
        leaving[i],
        slots[i].slot is Active,
    ensures
        closing(slots, leaving).contains(
            Action::CloseMonitor { id: slots[i].id, callback: slots[i].slot->callback },
        ),
    decreases slots.len(),
{
    let front = slots.drop_last();
    let before = closing(front, leaving);
    let all = closing(slots, leaving);
    let wanted = Action::CloseMonitor { id: slots[i].id, callback: slots[i].slot->callback };
    if i == slots.len() - 1 {
        assert(all[all.len() - 1] == wanted);
    } else {
        lemma_closing_closes(front, leaving, i);
        let k = choose|k: int| 0 <= k < before.len() && before[k] == wanted;
        assert(all[k] == wanted);
    }
}

proof fn lemma_staying_keeps(slots: Seq<Output>, leaving: Seq<bool>, i: int)
    requires
        leaving.len() >= slots.len(),
        0 <= i < slots.len(),
        !leaving[i],
    ensures
        staying(slots, leaving).contains(slots[i]),
    decreases slots.len(),
{
    let front = slots.drop_last();
    let before = staying(front, leaving);
    let all = staying(slots, leaving);
    if i == slots.len() - 1 {
        assert(all[all.len() - 1] == slots[i]);
    } else {
        lemma_staying_keeps(front, leaving, i);
        let k = choose|k: int| 0 <= k < before.len() && before[k] == front[i];
        assert(all[k] == slots[i]);
    }
}

proof fn lemma_opening_leaves_slots_alone(
    outputs: Seq<OutputSpec>,
    slots: Seq<Output>,
    controls: Seq<String>,
    source: String,
    id: Seq<char>,
)
    requires
        has_slot(slots, id),
    ensures
        leaves_alone(opening(outputs, slots, controls, source), id),
    decreases outputs.len(),
{
    if outputs.len() > 0 {
        lemma_opening_leaves_slots_alone(outputs.drop_last(), slots, controls, source, id);
    }
}

proof fn lemma_opening_opens(
    outputs: Seq<OutputSpec>,
    slots: Seq<Output>,
    controls: Seq<String>,
    source: String,
    i: int,
)
    requires
        0 <= i < outputs.len(),
        !has_slot(slots, outputs[i].id@),
        listed(controls, outputs[i].id@),
    ensures
        exists|k: int|
            0 <= k < opening(outputs, slots, controls, source).len() && touches(
                #[trigger] opening(outputs, slots, controls, source)[k],
                outputs[i].id@,
            ),
    decreases outputs.len(),
{
    let front = outputs.drop_last();
    let before = opening(front, slots, controls, source);
    let all = opening(outputs, slots, controls, source);
    let id = outputs[i].id@;
    if i < front.len() {
        lemma_opening_opens(front, slots, controls, source, i);
        let k = choose|k: int| 0 <= k < before.len() && touches(#[trigger] before[k], id);
        assert(all[k] == before[k]);
    } else if configured(front, id) {
        let j = choose|j: int| 0 <= j < front.len() && (#[trigger] front[j]).id@ == id;
        lemma_opening_opens(front, slots, controls, source, j);
        let k = choose|k: int| 0 <= k < before.len() && touches(#[trigger] before[k], id);
        assert(all[k] == before[k]);
    } else {
        assert(touches(all[all.len() - 1], id));
    }
}

proof fn lemma_opening_opens_once(
    outputs: Seq<OutputSpec>,
    slots: Seq<Output>,
    controls: Seq<String>,
    source: String,
)
    ensures
        forall|a: int, b: int, id: Seq<char>|
            0 <= a < b < opening(outputs, slots, controls, source).len() ==> !(touches(
                #[trigger] opening(outputs, slots, controls, source)[a],
                id,
            ) && #[trigger] touches(opening(outputs, slots, controls, source)[b], id)),
        forall|k: int, id: Seq<char>|
            0 <= k < opening(outputs, slots, controls, source).len() && #[trigger] touches(
                opening(outputs, slots, controls, source)[k],
                id,
            ) ==> configured(outputs, id) && listed(controls, id) && !has_slot(slots, id),
    decreases outputs.len(),
{
    if outputs.len() > 0 {
        let front = outputs.drop_last();
        let before = opening(front, slots, controls, source);
        let all = opening(outputs, slots, controls, source);
        lemma_opening_opens_once(front, slots, controls, source);
        assert forall|k: int, id: Seq<char>|
            0 <= k < all.len() && #[trigger] touches(all[k], id) implies configured(outputs, id)
            && listed(controls, id) && !has_slot(slots, id) by {
            if k < before.len() {
                assert(all[k] == before[k]);
                assert(touches(before[k], id));
                let j = choose|j: int| 0 <= j < front.len() && (#[trigger] front[j]).id@ == id;
                assert(outputs[j].id@ == id);
            } else {
                assert(outputs[outputs.len() - 1].id@ == id);
            }
        }
        assert forall|a: int, b: int, id: Seq<char>| 0 <= a < b < all.len() implies !(touches(
            #[trigger] all[a],
            id,
        ) && #[trigger] touches(all[b], id)) by {
            assert(all[a] == before[a]);
            if b < before.len() {
                assert(all[b] == before[b]);
                assert(touches(before[b], id) == touches(all[b], id));
            } else if touches(all[a], id) && touches(all[b], id) {
                assert(touches(before[a], id));
                assert(configured(front, id));
            }
        }
    }
}

proof fn lemma_tick_leaves_alone(
    session: SessionView,
    reading: CaptureState,
    readings: Seq<Option<MonitorState>>,
    controls: Seq<String>,
    now: u64,
    retry: u64,
    i: int,
)
    requires
        distinct(session.slots),
        readings.len() == session.slots.len(),
        0 <= i < session.slots.len(),
        !session.slots[i].slot.observed(readings[i], now).due(now, retry),
    ensures
        leaves_alone(
            session.tick_actions(reading, readings, controls, now, retry),
            session.slots[i].id@,
        ),
        session.after_tick(reading, readings, controls, now, retry).slots.contains(
            Output {
                id: session.slots[i].id,
                slot: session.slots[i].slot.observed(readings[i], now),
            },
        ),
{
    let slots = observed_slots(session.slots, readings, now);
    let leaving = rebuilding(slots, controls, now, retry);
    let id = session.slots[i].id@;
    assert(slots[i].id@ == id);
    assert forall|k: int| 0 <= k < slots.len() && leaving[k] implies (#[trigger] slots[k]).id@
        != id by {
        if k < i {
            assert(session.slots[k].id@ != session.slots[i].id@);
        } else if k > i {
            assert(session.slots[i].id@ != session.slots[k].id@);
        }
    }
    lemma_reopening_touches_leaving(slots, leaving, session.source, id);
    lemma_staying_keeps(slots, leaving, i);
}

/// An output the source records is left out on purpose: it is never opened,
/// at whatever time and whatever the other devices report, and it stays
/// marked as such.
pub proof fn law_the_recorded_output_is_left_alone(
    sup: SupervisorView,
    reading: CaptureState,
    readings: Seq<Option<MonitorState>>,
    controls: Seq<String>,
    now: u64,
    i: int,
)
    requires
        sup.wf(),
        sup.session is Some,
        sup.covered(readings),
        0 <= i < sup.session->0.slots.len(),
        sup.session->0.slots[i].slot is Ignored,
    ensures
        leaves_alone(
            sup.tick_actions(reading, readings, controls, now),
            sup.session->0.slots[i].id@,
        ),
        sup.after_tick(reading, readings, controls, now).session->0.slots.contains(
            sup.session->0.slots[i],
        ),
        Supervisor::output_shown(
            sup.session->0.slots[i].id,
            Some(sup.session->0.slots[i].slot),
        ).state is Blocked,
{
    lemma_tick_leaves_alone(sup.session->0, reading, readings, controls, now, sup.retry, i);
}

/// A monitor that plays is left alone, and any failure it had is forgotten.
pub proof fn law_a_playing_monitor_is_left_alone(
    sup: SupervisorView,
    reading: CaptureState,
    readings: Seq<Option<MonitorState>>,
    controls: Seq<String>,
    now: u64,
    i: int,
)
    requires
        sup.wf(),
        sup.session is Some,
        sup.covered(readings),
        0 <= i < sup.session->0.slots.len(),
        sup.session->0.slots[i].slot is Active,
        readings[i] matches Some(state) && state is Playing,
    ensures
        leaves_alone(
            sup.tick_actions(reading, readings, controls, now),
            sup.session->0.slots[i].id@,
        ),
        sup.after_tick(reading, readings, controls, now).session->0.slots.contains(
            Output {
                id: sup.session->0.slots[i].id,
                slot: Slot::Active {
                    callback: sup.session->0.slots[i].slot->callback,
                    state: readings[i]->0,
                    failing_since: None,
                },
            },
        ),
{
    lemma_tick_leaves_alone(sup.session->0, reading, readings, controls, now, sup.retry, i);
}

/// A monitor that reports a failure gets a full retry delay to heal on its
/// own before it is touched.
pub proof fn law_a_failing_monitor_gets_its_chance(
    sup: SupervisorView,
    reading: CaptureState,
    readings: Seq<Option<MonitorState>>,
    controls: Seq<String>,
    now: u64,
    i: int,
)
    requires
        sup.wf(),
        sup.session is Some,
        sup.covered(readings),
        0 <= i < sup.session->0.slots.len(),
        sup.session->0.slots[i].slot is Active,
        readings[i] matches Some(state) && state is Reconnecting,
        match sup.session->0.slots[i].slot->failing_since {
            Some(since) => now < since + sup.retry,
            None => sup.retry > 0,
        },
    ensures
        leaves_alone(
            sup.tick_actions(reading, readings, controls, now),
            sup.session->0.slots[i].id@,
        ),
{
    lemma_tick_leaves_alone(sup.session->0, reading, readings, controls, now, sup.retry, i);
}

/// A monitor that has been reporting a failure for a full retry delay, and an
/// output that could not be opened and whose delay is over, are opened again
/// as long as something controls them.
pub proof fn law_what_is_due_is_opened_again(
    sup: SupervisorView,
    reading: CaptureState,
    readings: Seq<Option<MonitorState>>,
    controls: Seq<String>,
    now: u64,
    i: int,
)
    requires
        sup.session is Some,
        sup.covered(readings),
        0 <= i < sup.session->0.slots.len(),
        listed(controls, sup.session->0.slots[i].id@),
        match sup.session->0.slots[i].slot {
            Slot::Active { failing_since: Some(since), .. } => now >= since + sup.retry && (
            readings[i] matches Some(state) && state is Reconnecting),
            Slot::Failed { retry_at, .. } => now >= retry_at,
            _ => false,
        },
    ensures
        opens(
            sup.tick_actions(reading, readings, controls, now),
            sup.session->0.source,
            sup.session->0.slots[i].id,
        ),
{
    let session = sup.session->0;
    let slots = observed_slots(session.slots, readings, now);
    let leaving = rebuilding(slots, controls, now, sup.retry);
    lemma_reopening_opens(slots, leaving, session.source, i);
    let tail = reopening(slots, leaving, session.source);
    let all = sup.tick_actions(reading, readings, controls, now);
    let wanted = Action::OpenMonitor { source: session.source, id: session.slots[i].id };
    let k = choose|k: int| 0 <= k < tail.len() && tail[k] == wanted;
    assert(all[all.len() - tail.len() + k] == wanted);
}

/// Once the system has said that the devices changed, an output that could
/// not be opened, and a monitor that reports a failure, are due at once,
/// without waiting for the rest of their delay.
pub proof fn law_a_device_coming_back_is_opened_at_once(
    slot: Slot,
    reading: Option<MonitorState>,
    event: u64,
    now: u64,
    retry: u64,
)
    requires
        event <= now,
        slot is Failed || (slot is Active && retry <= event && (reading matches Some(state) && state
            is Reconnecting)),
    ensures
        slot.woken(reading, event, retry).due(now, retry),
        slot.woken(reading, event, retry).observed(reading, now).due(now, retry),
{
}

/// When the configuration changes but not its source, an output that stays
/// configured is neither closed nor opened, and keeps its slot.
pub proof fn law_an_output_that_stays_on_is_not_rebuilt(
    sup: SupervisorView,
    cfg: EngineConfig,
    controls: Seq<String>,
    i: int,
)
    requires
        sup.wf(),
        cfg.outputs@.len() > 0,
        !sup.starts_over(cfg),
        0 <= i < sup.session->0.slots.len(),
        configured(cfg.outputs@, sup.session->0.slots[i].id@),
    ensures
        leaves_alone(sup.apply_actions(cfg, controls), sup.session->0.slots[i].id@),
        sup.after_apply(cfg).session->0.slots.contains(sup.session->0.slots[i]),
{
    let session = sup.session->0;
    let leaving = stale(session.slots, cfg.outputs@);
    let kept = staying(session.slots, leaving);
    let id = session.slots[i].id@;
    assert forall|k: int| 0 <= k < session.slots.len() && leaving[k] implies (
    #[trigger] session.slots[k]).id@ != id by {
    }
    lemma_closing_touches_leaving(session.slots, leaving, id);
    lemma_staying_keeps(session.slots, leaving, i);
    let k = choose|k: int| 0 <= k < kept.len() && kept[k] == session.slots[i];
    assert(kept[k].id@ == id);
    lemma_opening_leaves_slots_alone(cfg.outputs@, kept, controls, session.source, id);
}

/// When the configuration changes but not its source, the monitor of an
/// output that is switched off is closed and its slot is gone.
pub proof fn law_an_output_switched_off_is_dropped(
    sup: SupervisorView,
    cfg: EngineConfig,
    controls: Seq<String>,
    i: int,
)
    requires
        sup.wf(),
        cfg.outputs@.len() > 0,
        !sup.starts_over(cfg),
        0 <= i < sup.session->0.slots.len(),
        !configured(cfg.outputs@, sup.session->0.slots[i].id@),
    ensures
        sup.session->0.slots[i].slot is Active ==> sup.apply_actions(cfg, controls).contains(
            Action::CloseMonitor {
                id: sup.session->0.slots[i].id,
                callback: sup.session->0.slots[i].slot->callback,
            },
        ),
        !has_slot(sup.after_apply(cfg).session->0.slots, sup.session->0.slots[i].id@),
{
    let session = sup.session->0;
    let leaving = stale(session.slots, cfg.outputs@);
    if session.slots[i].slot is Active {
        lemma_closing_closes(session.slots, leaving, i);
        let head = closing(session.slots, leaving);
        let all = sup.apply_actions(cfg, controls);
        let wanted = Action::CloseMonitor {
            id: session.slots[i].id,
            callback: session.slots[i].slot->callback,
        };
        let k = choose|k: int| 0 <= k < head.len() && head[k] == wanted;
        assert(all[k] == wanted);
    }
    lemma_staying_drops(session.slots, leaving, session.slots[i].id@);
}

proof fn lemma_staying_drops(slots: Seq<Output>, leaving: Seq<bool>, id: Seq<char>)
    requires
        leaving.len() >= slots.len(),
        forall|i: int| 0 <= i < slots.len() && (#[trigger] slots[i]).id@ == id ==> leaving[i],
    ensures
        !has_slot(staying(slots, leaving), id),
    decreases slots.len(),
{
    if slots.len() > 0 {
        let front = slots.drop_last();
        assert forall|i: int| 0 <= i < front.len() && (#[trigger] front[i]).id@ == id implies
            leaving[i] by {
            assert(slots[i] == front[i]);
        }
        lemma_staying_drops(front, leaving, id);
        let kept = staying(front, leaving);
        let all = staying(slots, leaving);
        assert forall|k: int| 0 <= k < all.len() implies (#[trigger] all[k]).id@ != id by {
            if k < kept.len() {
                assert(all[k] == kept[k]);
            } else {
                assert(all[k] == slots[slots.len() - 1]);
            }
        }
    }
}

/// Applying a configuration opens each of its outputs that has no slot yet,
/// and something controls, exactly once; and no other.
pub proof fn law_each_output_is_opened_once(
    outputs: Seq<OutputSpec>,
    slots: Seq<Output>,
    controls: Seq<String>,
    source: String,
    id: Seq<char>,
)
    ensures
        configured(outputs, id) && listed(controls, id) && !has_slot(slots, id) <==> exists|k: int|
            0 <= k < opening(outputs, slots, controls, source).len() && touches(
                #[trigger] opening(outputs, slots, controls, source)[k],
                id,
            ),
        forall|a: int, b: int|
            0 <= a < b < opening(outputs, slots, controls, source).len() ==> !(touches(
                #[trigger] opening(outputs, slots, controls, source)[a],
                id,
            ) && touches(#[trigger] opening(outputs, slots, controls, source)[b], id)),
{
    let all = opening(outputs, slots, controls, source);
    lemma_opening_opens_once(outputs, slots, controls, source);
    if configured(outputs, id) && listed(controls, id) && !has_slot(slots, id) {
        let i = choose|i: int| 0 <= i < outputs.len() && (#[trigger] outputs[i]).id@ == id;
        lemma_opening_opens(outputs, slots, controls, source, i);
    }
    assert forall|a: int, b: int| 0 <= a < b < all.len() implies !(touches(#[trigger] all[a], id)
        && touches(#[trigger] all[b], id)) by {
        assert(!(touches(all[a], id) && touches(all[b], id)));
    }
}

/// Restarting keeps the configuration: the same source is opened again, and
/// each of its outputs that something controls.
pub proof fn law_restart_keeps_the_configuration(
    sup: SupervisorView,
    controls: Seq<String>,
    i: int,
)
    requires
        sup.wf(),
        sup.cfg is Some,
        0 <= i < sup.cfg->0.outputs@.len(),
        listed(controls, sup.cfg->0.outputs@[i].id@),
    ensures
        sup.after_restart().cfg == sup.cfg,
        sup.after_restart().session->0.source == sup.cfg->0.source,
        sup.restart_actions(controls).contains(
            Action::OpenCapture { source: sup.cfg->0.source, fresh: true },
        ),
        exists|k: int|
            0 <= k < sup.restart_actions(controls).len() && touches(
                #[trigger] sup.restart_actions(controls)[k],
                sup.cfg->0.outputs@[i].id@,
            ) && sup.restart_actions(controls)[k] is OpenMonitor,
{
    let cfg = sup.cfg->0;
    let down = sup.closed_down();
    let slots = Seq::<Output>::empty();
    let tail = opening(cfg.outputs@, slots, controls, cfg.source);
    let all = sup.restart_actions(controls);
    let head = sup.shutting();
    assert(all =~= head.push(Action::OpenCapture { source: cfg.source, fresh: true }) + tail);
    assert(all[head.len() as int] == Action::OpenCapture { source: cfg.source, fresh: true });
    assert(!has_slot(slots, cfg.outputs@[i].id@));
    lemma_opening_opens(cfg.outputs@, slots, controls, cfg.source, i);
    let id = cfg.outputs@[i].id@;
    let k = choose|k: int| 0 <= k < tail.len() && touches(#[trigger] tail[k], id);
    assert(all[head.len() + 1 + k] == tail[k]);
    lemma_opening_only_opens(cfg.outputs@, slots, controls, cfg.source);
}

proof fn lemma_opening_only_opens(
    outputs: Seq<OutputSpec>,
    slots: Seq<Output>,
    controls: Seq<String>,
    source: String,
)
    ensures
        forall|k: int|
            0 <= k < opening(outputs, slots, controls, source).len() ==> #[trigger] opening(
                outputs,
                slots,
                controls,
                source,
            )[k] is OpenMonitor,
    decreases outputs.len(),
{
    if outputs.len() > 0 {
        lemma_opening_only_opens(outputs.drop_last(), slots, controls, source);
    }
}

/// No output means stopped: everything that runs is closed, the capture last,
/// and nothing is left.
pub proof fn law_no_output_means_stopped(
    sup: SupervisorView,
    cfg: EngineConfig,
    controls: Seq<String>,
    i: int,
)
    requires
        sup.wf(),
        cfg.outputs@.len() == 0,
        sup.session is Some,
        0 <= i < sup.session->0.slots.len(),
        sup.session->0.slots[i].slot is Active,
    ensures
        sup.after_apply(cfg).cfg is None,
        sup.after_apply(cfg).session is None,
        sup.apply_actions(cfg, controls).last() is CloseCapture,
        sup.apply_actions(cfg, controls).contains(
            Action::CloseMonitor {
                id: sup.session->0.slots[i].id,
                callback: sup.session->0.slots[i].slot->callback,
            },
        ),
{
    let session = sup.session->0;
    let leaving = everything(session.slots);
    lemma_closing_closes(session.slots, leaving, i);
    let head = closing(session.slots, leaving);
    let all = sup.apply_actions(cfg, controls);
    let wanted = Action::CloseMonitor {
        id: session.slots[i].id,
        callback: session.slots[i].slot->callback,
    };
    let k = choose|k: int| 0 <= k < head.len() && head[k] == wanted;
    assert(all[k] == wanted);
}

/// A change of the default output builds every controlled monitor again, so
/// the rule against feedback is looked at anew for each of them.
pub proof fn law_a_new_default_output_rebuilds_every_monitor(
    sup: SupervisorView,
    follows: bool,
    controls: Seq<String>,
    i: int,
)
    requires
        sup.session is Some,
        0 <= i < sup.session->0.slots.len(),
        listed(controls, sup.session->0.slots[i].id@),
    ensures
        opens(
            sup.system_actions(SystemEvent::DefaultOutputChanged, follows, controls),
            sup.session->0.source,
            sup.session->0.slots[i].id,
        ),
{
    let session = sup.session->0;
    let leaving = crate::audio::session::controlled(session.slots, controls);
    lemma_reopening_opens(session.slots, leaving, session.source, i);
    let tail = reopening(session.slots, leaving, session.source);
    let all = sup.system_actions(SystemEvent::DefaultOutputChanged, follows, controls);
    let wanted = Action::OpenMonitor { source: session.source, id: session.slots[i].id };
    let k = choose|k: int| 0 <= k < tail.len() && tail[k] == wanted;
    assert(all[all.len() - tail.len() + k] == wanted);
}

/// A capture that stopped is opened again once its delay is over, and not
/// before; one that runs never is.
pub proof fn law_a_stopped_capture_is_opened_again(
    sup: SupervisorView,
    reading: CaptureState,
    readings: Seq<Option<MonitorState>>,
    controls: Seq<String>,
    now: u64,
)
    requires
        sup.session is Some,
        sup.covered(readings),
    ensures
        ({
            let session = sup.session->0;
            let stopped = session.capture is Err || reading is Failed;
            sup.tick_actions(reading, readings, controls, now).contains(
                Action::OpenCapture { source: session.source, fresh: false },
            ) <==> stopped && now >= session.capture_retry_at
        }),
{
    let session = sup.session->0;
    let slots = observed_slots(session.slots, readings, now);
    let leaving = rebuilding(slots, controls, now, sup.retry);
    let tail = reopening(slots, leaving, session.source);
    let all = sup.tick_actions(reading, readings, controls, now);
    let wanted = Action::OpenCapture { source: session.source, fresh: false };
    lemma_reopening_never_captures(slots, leaving, session.source);
    if session.capture_due(reading, now) {
        assert(all[1] == wanted);
    } else {
        assert(all =~= tail);
    }
}

proof fn lemma_reopening_never_captures(slots: Seq<Output>, leaving: Seq<bool>, source: String)
    ensures
        forall|k: int|
            0 <= k < reopening(slots, leaving, source).len() ==> !(#[trigger] reopening(
                slots,
                leaving,
                source,
            )[k] is OpenCapture),
    decreases slots.len(),
{
    if slots.len() > 0 {
        lemma_reopening_never_captures(slots.drop_last(), leaving, source);
    }
}

/// What opening a monitor comes to is what the panel shows: a monitor that
/// plays as playing, a refusal with its reason, and the recorded output as
/// blocked.
pub proof fn law_the_panel_shows_what_opening_came_to(
    sup: SupervisorView,
    id: String,
    outcome: Result<MonitorInit, Message>,
    now: u64,
)
    requires
        sup.wf(),
        sup.awaits(id@),
    ensures
        ({
            let slot = Slot::built(outcome, now, sup.retry);
            let slots = sup.session->0.slots.push(Output { id, slot });
            let shown = Supervisor::output_shown(id, find_slot(slots, id@));
            &&& find_slot(slots, id@) == Some(slot)
            &&& match outcome {
                Ok(MonitorInit::Active { state: MonitorState::Playing { .. }, .. }) => shown.state
                    is Playing,
                Ok(MonitorInit::Active { state: MonitorState::Reconnecting(why), .. }) => shown.state
                    is Error && shown.message == Some(why),
                Ok(MonitorInit::Ignored) => shown.state is Blocked,
                Err(why) => shown.state is Error && shown.message == Some(why),
            }
        }),
{
    lemma_find_last(sup.session->0.slots, Output { id, slot: Slot::built(outcome, now, sup.retry) });
}

proof fn lemma_find_last(slots: Seq<Output>, added: Output)
    requires
        !has_slot(slots, added.id@),
    ensures
        find_slot(slots.push(added), added.id@) == Some(added.slot),
    decreases slots.len(),
{
    let all = slots.push(added);
    if slots.len() > 0 {
        let rest = slots.drop_first();
        assert(slots[0].id@ != added.id@);
        assert forall|i: int| 0 <= i < rest.len() implies (#[trigger] rest[i]).id@
            != added.id@ by {
            assert(slots[i + 1].id@ != added.id@);
        }
        lemma_find_last(rest, added);
        assert(all.drop_first() =~= rest.push(added));
    }
}

/// The statuses published in turn, from one that was just read on: each takes
/// the peak that its predecessor still shows, and what was heard since.
pub open spec fn published_in_turn(
    sups: Seq<SupervisorView>,
    heard: Seq<u32>,
    shown: Seq<Status>,
) -> bool {
    &&& sups.len() == heard.len()
    &&& shown.len() == heard.len() + 1
    &&& shown[0].source.peak == ZERO
    &&& forall|i: int|
        0 <= i < heard.len() ==> (#[trigger] sups[i]).session is Some && sups[i].cfg is Some
            && sups[i].published(shown[i].source.peak, heard[i], &shown[i + 1])
}

/// A read of the status gives the peak of the source since the last read: the
/// loudest of what was heard between them, over however many rounds of a
/// running session. A second read with nothing heard in between gives silence,
/// for the source and for every output.
pub proof fn law_a_read_gives_the_loudest_since_the_last(
    sups: Seq<SupervisorView>,
    heard: Seq<u32>,
    shown: Seq<Status>,
    peaks: Seq<Option<u32>>,
    first: Status,
    left: Status,
    silent: Seq<Option<u32>>,
    second: Status,
    after: Status,
)
    requires
        published_in_turn(sups, heard, shown),
        heard.len() > 0,
        forall|i: int| 0 <= i < heard.len() ==> #[trigger] heard[i] <= INFINITY,
        shown.last().reads(peaks, &first, &left),
        left.reads(silent, &second, &after),
        forall|k: int|
            0 <= k < left.outputs@.len() ==> (#[trigger] silent[k] matches Some(p) ==> p == ZERO),
    ensures
        forall|i: int| 0 <= i < heard.len() ==> #[trigger] heard[i] <= first.source.peak,
        first.source.peak == ZERO || heard.contains(first.source.peak),
        second.source.peak == ZERO,
        forall|k: int|
            0 <= k < second.outputs@.len() ==> (#[trigger] second.outputs@[k]).peak == ZERO,
{
    lemma_loudest(sups, heard, shown, heard.len() as int);
    let n = heard.len() - 1;
    assert(sups[n].published(shown[n].source.peak, heard[n], &shown[n + 1]));
}

proof fn lemma_loudest(
    sups: Seq<SupervisorView>,
    heard: Seq<u32>,
    shown: Seq<Status>,
    n: int,
)
    requires
        published_in_turn(sups, heard, shown),
        0 <= n <= heard.len(),
        forall|i: int| 0 <= i < heard.len() ==> #[trigger] heard[i] <= INFINITY,
    ensures
        shown[n].source.peak <= INFINITY,
        forall|i: int| 0 <= i < n ==> #[trigger] heard[i] <= shown[n].source.peak,
        shown[n].source.peak == ZERO || heard.contains(shown[n].source.peak),
    decreases n,
{
    if n > 0 {
        lemma_loudest(sups, heard, shown, n - 1);
        assert(sups[n - 1].published(shown[n - 1].source.peak, heard[n - 1], &shown[n]));
        assert(heard[n - 1] <= INFINITY);
        assert(heard.contains(heard[n - 1]));
    }
}

/// Whether the actions open the capture of that source again.
pub open spec fn reopens(actions: Seq<Action>, source: String) -> bool {
    actions.contains(Action::OpenCapture { source, fresh: false })
}

/// Whether the actions leave the capture alone.
pub open spec fn keeps_capture(actions: Seq<Action>) -> bool {
    forall|k: int|
        0 <= k < actions.len() ==> !(#[trigger] actions[k] is OpenCapture) && !(actions[k]
            is CloseCapture)
}

proof fn lemma_reopening_keeps_capture(slots: Seq<Output>, leaving: Seq<bool>, source: String)
    ensures
        keeps_capture(reopening(slots, leaving, source)),
    decreases slots.len(),
{
    if slots.len() > 0 {
        lemma_reopening_keeps_capture(slots.drop_last(), leaving, source);
    }
}

/// The actions of a round on the capture: it is opened again exactly where it
/// stopped and its time has come.
proof fn lemma_tick_capture(
    session: SessionView,
    reading: CaptureState,
    readings: Seq<Option<MonitorState>>,
    controls: Seq<String>,
    now: u64,
    retry: u64,
)
    ensures
        ({
            let actions = session.tick_actions(reading, readings, controls, now, retry);
            if session.capture_due(reading, now) {
                &&& actions.len() >= 2
                &&& actions[0] is CloseCapture
                &&& actions[1] == (Action::OpenCapture { source: session.source, fresh: false })
                &&& reopens(actions, session.source)
            } else {
                keeps_capture(actions)
            }
        }),
{
    let slots = observed_slots(session.slots, readings, now);
    let leaving = rebuilding(slots, controls, now, retry);
    let tail = reopening(slots, leaving, session.source);
    let actions = session.tick_actions(reading, readings, controls, now, retry);
    lemma_reopening_keeps_capture(slots, leaving, session.source);
    if session.capture_due(reading, now) {
        assert(actions[1] == (Action::OpenCapture { source: session.source, fresh: false }));
    } else {
        assert(actions =~= tail);
    }
}

/// Once the system has said at `t` that the devices changed, a source that
/// could not be opened or that stopped is opened again by the next round,
/// whenever that is, without waiting for the rest of its delay: it is closed
/// first. A source that runs is left alone.
pub proof fn law_a_source_coming_back_is_opened_at_once(
    sup: &mut Supervisor,
    follows: bool,
    readings: &Vec<Option<MonitorState>>,
    controls: &Vec<String>,
    t: u64,
    told: Vec<Action>,
    ticking: &mut Supervisor,
    reading: &CaptureState,
    later_readings: &Vec<Option<MonitorState>>,
    later_controls: &Vec<String>,
    now: u64,
    actions: Vec<Action>,
)
    requires
        call_ensures(
            Supervisor::system,
            (sup, SystemEvent::DevicesChanged, follows, readings, controls, t),
            told,
        ),
        *old(ticking) == *final(sup),
        call_ensures(
            Supervisor::tick,
            (ticking, reading, later_readings, later_controls, now),
            actions,
        ),
        old(sup)@.session is Some,
        t <= now,
    ensures
        told@.len() == 0,
        final(sup)@.session is Some,
        final(sup)@.session->0.source == old(sup)@.session->0.source,
        final(sup)@.session->0.capture == old(sup)@.session->0.capture,
        final(sup)@.cfg == old(sup)@.cfg,
        old(sup)@.session->0.capture is Err || reading is Failed ==> {
            &&& reopens(actions@, old(sup)@.session->0.source)
            &&& actions@[0] is CloseCapture
            &&& actions@[1] is OpenCapture
        },
        old(sup)@.session->0.capture is Ok && !(reading is Failed) ==> keeps_capture(actions@),
{
    lemma_tick_capture(
        old(ticking)@.session->0,
        *reading,
        later_readings@,
        later_controls@,
        now,
        old(ticking)@.retry,
    );
}

/// So is an output that could not be opened, and a monitor that reports a
/// failure, as long as something controls it.
pub proof fn law_an_output_coming_back_is_opened_at_once(
    sup: &mut Supervisor,
    follows: bool,
    readings: &Vec<Option<MonitorState>>,
    controls: &Vec<String>,
    t: u64,
    told: Vec<Action>,
    ticking: &mut Supervisor,
    reading: &CaptureState,
    later_readings: &Vec<Option<MonitorState>>,
    later_controls: &Vec<String>,
    now: u64,
    actions: Vec<Action>,
    i: int,
)
    requires
        call_ensures(
            Supervisor::system,
            (sup, SystemEvent::DevicesChanged, follows, readings, controls, t),
            told,
        ),
        *old(ticking) == *final(sup),
        call_ensures(
            Supervisor::tick,
            (ticking, reading, later_readings, later_controls, now),
            actions,
        ),
        old(sup)@.session is Some,
        readings@.len() == old(sup)@.session->0.slots.len(),
        later_readings@.len() == readings@.len(),
        0 <= i < old(sup)@.session->0.slots.len(),
        t <= now,
        listed(later_controls@, old(sup)@.session->0.slots[i].id@),
        old(sup)@.session->0.slots[i].slot is Failed || (old(sup)@.session->0.slots[i].slot
            is Active && old(sup)@.retry <= t && (readings@[i] matches Some(state) && state
            is Reconnecting) && (later_readings@[i] matches Some(state) && state is Reconnecting)),
    ensures
        opens(actions@, old(sup)@.session->0.source, old(sup)@.session->0.slots[i].id),
{
    let session = old(ticking)@.session->0;
    let slots = observed_slots(session.slots, later_readings@, now);
    let leaving = rebuilding(slots, later_controls@, now, old(ticking)@.retry);
    lemma_reopening_opens(slots, leaving, session.source, i);
    let tail = reopening(slots, leaving, session.source);
    let wanted = Action::OpenMonitor { source: session.source, id: session.slots[i].id };
    let k = choose|k: int| 0 <= k < tail.len() && tail[k] == wanted;
    assert(actions@[actions@.len() - tail.len() + k] == wanted);
}

/// A source that could not be opened is left alone for a full retry delay and
/// opened again after it; one that was opened, and runs, is left alone, and is
/// shown in its format.
pub proof fn law_a_source_that_could_not_be_opened_is_tried_again(
    sup: &mut Supervisor,
    outcome: Result<CaptureState, Message>,
    t: u64,
    ticking: &mut Supervisor,
    reading: &CaptureState,
    readings: &Vec<Option<MonitorState>>,
    controls: &Vec<String>,
    now: u64,
    actions: Vec<Action>,
)
    requires
        old(sup)@.session is Some,
        t + old(sup)@.retry <= u64::MAX,
        call_ensures(Supervisor::capture_opened, (sup, outcome, t), ()),
        *old(ticking) == *final(sup),
        call_ensures(Supervisor::tick, (ticking, reading, readings, controls, now), actions),
    ensures
        ({
            let source = old(sup)@.session->0.source;
            let stopped = outcome is Err || reading is Failed;
            &&& stopped && now >= t + old(sup)@.retry ==> reopens(actions@, source)
            &&& !stopped || now < t + old(sup)@.retry ==> keeps_capture(actions@)
        }),
        final(sup)@.session->0.source == old(sup)@.session->0.source,
        final(sup)@.session->0.slots == old(sup)@.session->0.slots,
        final(sup)@.cfg == old(sup)@.cfg,
        final(sup)@.retry == old(sup)@.retry,
        outcome matches Ok(state) ==> final(sup)@.session->0.capture is Ok && final(sup)@.session->0.capture_state == state,
        outcome matches Err(why) ==> final(sup)@.session->0.capture_state == CaptureState::Failed(
            why,
        ),
{
    lemma_tick_capture(
        old(ticking)@.session->0,
        *reading,
        readings@,
        controls@,
        now,
        old(ticking)@.retry,
    );
}

/// A source that ran at `t` and has stopped since is opened again once a full
/// retry delay has passed since it ran, and not before; whatever a round finds
/// of the source is what is shown of it.
pub proof fn law_a_source_that_stops_is_opened_again(
    sup: &mut Supervisor,
    running: &CaptureState,
    readings: &Vec<Option<MonitorState>>,
    controls: &Vec<String>,
    t: u64,
    first: Vec<Action>,
    ticking: &mut Supervisor,
    reading: &CaptureState,
    later_readings: &Vec<Option<MonitorState>>,
    later_controls: &Vec<String>,
    now: u64,
    second: Vec<Action>,
)
    requires
        old(sup)@.session is Some,
        old(sup)@.session->0.capture is Ok,
        !(running is Failed),
        t + old(sup)@.retry <= u64::MAX,
        call_ensures(Supervisor::tick, (sup, running, readings, controls, t), first),
        *old(ticking) == *final(sup),
        call_ensures(
            Supervisor::tick,
            (ticking, reading, later_readings, later_controls, now),
            second,
        ),
    ensures
        keeps_capture(first@),
        final(sup)@.session->0.capture_state == *running,
        final(ticking)@.session->0.capture_state == *reading,
        reading is Failed && now >= t + old(sup)@.retry ==> reopens(
            second@,
            old(sup)@.session->0.source,
        ),
        !(reading is Failed) || now < t + old(sup)@.retry ==> keeps_capture(second@),
{
    lemma_tick_capture(
        old(sup)@.session->0,
        *running,
        readings@,
        controls@,
        t,
        old(sup)@.retry,
    );
    lemma_tick_capture(
        old(ticking)@.session->0,
        *reading,
        later_readings@,
        later_controls@,
        now,
        old(ticking)@.retry,
    );
}

/// An output that could not be opened at `t` is left alone for a full retry
/// delay and opened again by the first round after it; a monitor that was opened
/// is not touched while it plays.
pub proof fn law_an_output_that_could_not_be_opened_is_tried_again(
    sup: &mut Supervisor,
    id: String,
    outcome: Result<MonitorInit, Message>,
    t: u64,
    ticking: &mut Supervisor,
    reading: &CaptureState,
    readings: &Vec<Option<MonitorState>>,
    controls: &Vec<String>,
    now: u64,
    actions: Vec<Action>,
)
    requires
        old(sup)@.wf(),
        old(sup)@.awaits(id@),
        t + old(sup)@.retry <= u64::MAX,
        call_ensures(Supervisor::monitor_opened, (sup, id, outcome, t), ()),
        *old(ticking) == *final(sup),
        readings@.len() == old(sup)@.session->0.slots.len() + 1,
        call_ensures(Supervisor::tick, (ticking, reading, readings, controls, now), actions),
        outcome is Ok ==> (readings@.last() matches Some(state) && state is Playing),
    ensures
        has_slot(final(sup)@.session->0.slots, id@),
        outcome is Err && now >= t + old(sup)@.retry && listed(controls@, id@) ==> opens(
            actions@,
            old(sup)@.session->0.source,
            id,
        ),
        outcome is Ok || now < t + old(sup)@.retry ==> leaves_alone(actions@, id@),
        final(sup)@.session->0.source == old(sup)@.session->0.source,
        final(sup)@.session->0.capture == old(sup)@.session->0.capture,
        final(sup)@.session->0.capture_retry_at == old(sup)@.session->0.capture_retry_at,
        final(sup)@.session->0.slots.drop_last() == old(sup)@.session->0.slots,
{
    let session = old(ticking)@.session->0;
    let i = old(sup)@.session->0.slots.len() as int;
    assert(session.slots[i].id == id);
    assert(session.slots.drop_last() =~= old(sup)@.session->0.slots);
    let slots = observed_slots(session.slots, readings@, now);
    let leaving = rebuilding(slots, controls@, now, old(ticking)@.retry);
    assert(readings@[i] == readings@.last());
    if outcome is Err && now >= t + old(sup)@.retry && listed(controls@, id@) {
        lemma_reopening_opens(slots, leaving, session.source, i);
        let tail = reopening(slots, leaving, session.source);
        let wanted = Action::OpenMonitor { source: session.source, id };
        let k = choose|k: int| 0 <= k < tail.len() && tail[k] == wanted;
        assert(actions@[actions@.len() - tail.len() + k] == wanted);
    }
    if outcome is Ok || now < t + old(sup)@.retry {
        lemma_tick_leaves_alone(
            session,
            *reading,
            readings@,
            controls@,
            now,
            old(ticking)@.retry,
            i,
        );
    }
}

/// A monitor that plays at first and reports a failure from `t` on is left
/// alone until a full retry delay has passed since then, and opened again by
/// the round after it.
pub proof fn law_a_failing_monitor_is_opened_again_after_its_delay(
    sup: &mut Supervisor,
    reading: &CaptureState,
    readings: &Vec<Option<MonitorState>>,
    controls: &Vec<String>,
    t: u64,
    first: Vec<Action>,
    ticking: &mut Supervisor,
    later_reading: &CaptureState,
    later_readings: &Vec<Option<MonitorState>>,
    later_controls: &Vec<String>,
    now: u64,
    second: Vec<Action>,
    i: int,
)
    requires
        old(sup)@.wf(),
        old(sup)@.session is Some,
        old(sup)@.retry > 0,
        readings@.len() == old(sup)@.session->0.slots.len(),
        0 <= i < readings@.len(),
        old(sup)@.session->0.slots[i].slot matches Slot::Active { failing_since: None, .. },
        readings@[i] matches Some(state) && state is Reconnecting,
        call_ensures(Supervisor::tick, (sup, reading, readings, controls, t), first),
        final(sup)@.wf(),
        *old(ticking) == *final(sup),
        later_readings@.len() == final(sup)@.session->0.slots.len(),
        forall|k: int|
            0 <= k < later_readings@.len() && (#[trigger] final(sup)@.session->0.slots[k]).id@
                == old(sup)@.session->0.slots[i].id@ ==> (later_readings@[k] matches Some(state)
                && state is Reconnecting),
        call_ensures(
            Supervisor::tick,
            (ticking, later_reading, later_readings, later_controls, now),
            second,
        ),
        listed(later_controls@, old(sup)@.session->0.slots[i].id@),
    ensures
        leaves_alone(first@, old(sup)@.session->0.slots[i].id@),
        now < t + old(sup)@.retry ==> leaves_alone(second@, old(sup)@.session->0.slots[i].id@),
        now >= t + old(sup)@.retry ==> opens(
            second@,
            old(sup)@.session->0.source,
            old(sup)@.session->0.slots[i].id,
        ),
{
    let before = old(sup)@.session->0;
    lemma_tick_leaves_alone(before, *reading, readings@, controls@, t, old(sup)@.retry, i);
    let session = old(ticking)@.session->0;
    let kept = Output {
        id: before.slots[i].id,
        slot: before.slots[i].slot.observed(readings@[i], t),
    };
    assert(session.slots.contains(kept));
    let j = choose|j: int| 0 <= j < session.slots.len() && session.slots[j] == kept;
    assert(session.slots[j].id@ == before.slots[i].id@);
    let slots = observed_slots(session.slots, later_readings@, now);
    let leaving = rebuilding(slots, later_controls@, now, old(ticking)@.retry);
    if now >= t + old(sup)@.retry {
        lemma_reopening_opens(slots, leaving, session.source, j);
        let tail = reopening(slots, leaving, session.source);
        let wanted = Action::OpenMonitor { source: session.source, id: kept.id };
        let k = choose|k: int| 0 <= k < tail.len() && tail[k] == wanted;
        assert(second@[second@.len() - tail.len() + k] == wanted);
    } else {
        lemma_tick_leaves_alone(
            session,
            *later_reading,
            later_readings@,
            later_controls@,
            now,
            old(ticking)@.retry,
            j,
        );
    }
}

/// Whether every action is one of a session: what is opened is opened for its
/// source, and what is closed is the monitor of one of its slots.
pub open spec fn belong(actions: Seq<Action>, source: Seq<char>, slots: Seq<Output>) -> bool {
    forall|k: int| 0 <= k < actions.len() ==> belongs(#[trigger] actions[k], source, slots)
}

pub open spec fn belongs(action: Action, source: Seq<char>, slots: Seq<Output>) -> bool {
    match action {
        Action::OpenCapture { source: s, .. } => s@ == source,
        Action::OpenMonitor { source: s, .. } => s@ == source,
        Action::CloseMonitor { id, callback } => exists|i: int|
            0 <= i < slots.len() && (#[trigger] slots[i]).id == id && (slots[i].slot matches
                Slot::Active { callback: c, .. } && c == callback),
        Action::CloseCapture => true,
    }
}

proof fn lemma_reopening_belongs(slots: Seq<Output>, leaving: Seq<bool>, source: String)
    ensures
        belong(reopening(slots, leaving, source), source@, slots),
    decreases slots.len(),
{
    if slots.len() > 0 {
        let front = slots.drop_last();
        let before = reopening(front, leaving, source);
        let all = reopening(slots, leaving, source);
        lemma_reopening_belongs(front, leaving, source);
        assert forall|k: int| 0 <= k < all.len() implies belongs(
            #[trigger] all[k],
            source@,
            slots,
        ) by {
            if k < before.len() {
                assert(all[k] == before[k]);
                assert(belongs(before[k], source@, front));
                lemma_belongs_longer(before[k], source@, slots);
            } else {
                assert(slots[slots.len() - 1] == slots.last());
            }
        }
    }
}

proof fn lemma_belongs_longer(action: Action, source: Seq<char>, slots: Seq<Output>)
    requires
        slots.len() > 0,
        belongs(action, source, slots.drop_last()),
    ensures
        belongs(action, source, slots),
{
    if let Action::CloseMonitor { id, callback } = action {
        let front = slots.drop_last();
        let i = choose|i: int|
            0 <= i < front.len() && (#[trigger] front[i]).id == id && (front[i].slot matches
                Slot::Active { callback: c, .. } && c == callback);
        assert(slots[i] == front[i]);
    }
}

proof fn lemma_closing_belongs(slots: Seq<Output>, leaving: Seq<bool>, source: Seq<char>)
    ensures
        belong(closing(slots, leaving), source, slots),
        keeps_capture(closing(slots, leaving)),
        forall|k: int|
            0 <= k < closing(slots, leaving).len() ==> #[trigger] closing(slots, leaving)[k]
                is CloseMonitor,
    decreases slots.len(),
{
    if slots.len() > 0 {
        let front = slots.drop_last();
        let before = closing(front, leaving);
        let all = closing(slots, leaving);
        lemma_closing_belongs(front, leaving, source);
        assert forall|k: int| 0 <= k < all.len() implies belongs(
            #[trigger] all[k],
            source,
            slots,
        ) && all[k] is CloseMonitor by {
            if k < before.len() {
                assert(all[k] == before[k]);
                assert(belongs(before[k], source, front));
                lemma_belongs_longer(before[k], source, slots);
            } else {
                assert(slots[slots.len() - 1] == slots.last());
            }
        }
    }
}

proof fn lemma_opening_belongs(
    outputs: Seq<OutputSpec>,
    slots: Seq<Output>,
    controls: Seq<String>,
    source: String,
    any: Seq<Output>,
)
    ensures
        belong(opening(outputs, slots, controls, source), source@, any),
        keeps_capture(opening(outputs, slots, controls, source)),
    decreases outputs.len(),
{
    if outputs.len() > 0 {
        lemma_opening_belongs(outputs.drop_last(), slots, controls, source, any);
    }
}

/// A round opens what it opens for the source of the session and closes only
/// monitors of the session's slots, each with the callback that it has.
pub proof fn law_a_round_stays_with_its_session(
    sup: &mut Supervisor,
    reading: &CaptureState,
    readings: &Vec<Option<MonitorState>>,
    controls: &Vec<String>,
    now: u64,
    actions: Vec<Action>,
)
    requires
        old(sup)@.session is Some,
        readings@.len() == old(sup)@.session->0.slots.len(),
        call_ensures(Supervisor::tick, (sup, reading, readings, controls, now), actions),
    ensures
        belong(
            actions@,
            old(sup)@.session->0.source@,
            old(sup)@.session->0.slots,
        ),
        final(sup)@.session is Some,
        final(sup)@.session->0.source == old(sup)@.session->0.source,
        final(sup)@.cfg == old(sup)@.cfg,
        final(sup)@.retry == old(sup)@.retry,
        final(sup)@.devices_revision == old(sup)@.devices_revision,
{
    let session = old(sup)@.session->0;
    let slots = observed_slots(session.slots, readings@, now);
    let leaving = rebuilding(slots, controls@, now, old(sup)@.retry);
    let tail = reopening(slots, leaving, session.source);
    lemma_reopening_belongs(slots, leaving, session.source);
    let head = actions@.len() - tail.len();
    assert forall|k: int| 0 <= k < actions@.len() implies belongs(
        #[trigger] actions@[k],
        session.source@,
        session.slots,
    ) by {
        if k >= head {
            assert(actions@[k] == tail[k - head]);
            assert(belongs(tail[k - head], session.source@, slots));
            if let Action::CloseMonitor { id, callback } = actions@[k] {
                let i = choose|i: int|
                    0 <= i < slots.len() && (#[trigger] slots[i]).id == id && (slots[i].slot matches
                        Slot::Active { callback: c, .. } && c == callback);
                assert(session.slots[i].id == id);
            }
        }
    }
}

/// A configuration for another source closes the source that runs and opens its
/// own, with nothing of the old session, and each of its outputs that something
/// controls. For the same source the capture is left alone, and an output that
/// is new is opened for it.
pub proof fn law_a_configuration_is_carried_out(
    sup: &mut Supervisor,
    cfg: EngineConfig,
    controls: &Vec<String>,
    actions: Vec<Action>,
    i: int,
)
    requires
        old(sup)@.wf(),
        call_ensures(Supervisor::apply, (sup, cfg, controls), actions),
        0 <= i < cfg.outputs@.len() && listed(controls@, cfg.outputs@[i].id@),
    ensures
        ({
            let running = old(sup)@.session is Some && old(sup)@.session->0.source@ == cfg.source@;
            let after = final(sup)@;
            &&& after.cfg == Some(cfg)
            &&& after.session is Some && after.session->0.source@ == cfg.source@
            &&& after.retry == old(sup)@.retry
            &&& after.devices_revision == old(sup)@.devices_revision
            &&& running ==> keeps_capture(actions@) && after.session->0.capture
                == old(sup)@.session->0.capture && after.session->0.capture_retry_at
                == old(sup)@.session->0.capture_retry_at
            &&& !running ==> {
                &&& actions@.contains(
                    Action::OpenCapture { source: cfg.source, fresh: true },
                )
                &&& after.session->0.slots.len() == 0
                &&& after.session->0.capture is Err
            }
            &&& !running || !has_slot(old(sup)@.session->0.slots, cfg.outputs@[i].id@)
                ==> exists|k: int|
                0 <= k < actions@.len() && opens_for(
                    #[trigger] actions@[k],
                    cfg.source@,
                    cfg.outputs@[i].id@,
                )
            &&& !running && old(sup)@.session is Some ==> actions@.contains(Action::CloseCapture)
        }),
{
    let before = old(sup)@;
    let running = before.session is Some && before.session->0.source@ == cfg.source@;
    let id = cfg.outputs@[i].id@;
    if running {
        let session = before.session->0;
        let leaving = stale(session.slots, cfg.outputs@);
        let kept = staying(session.slots, leaving);
        let head = closing(session.slots, leaving);
        let tail = opening(cfg.outputs@, kept, controls@, session.source);
        lemma_closing_belongs(session.slots, leaving, session.source@);
        lemma_opening_belongs(cfg.outputs@, kept, controls@, session.source, kept);
        assert(actions@ =~= head + tail);
        assert forall|k: int| 0 <= k < actions@.len() implies !(#[trigger] actions@[k]
            is OpenCapture) && !(actions@[k] is CloseCapture) by {
            if k < head.len() {
                assert(actions@[k] == head[k]);
            } else {
                assert(actions@[k] == tail[k - head.len()]);
            }
        }
        if !has_slot(session.slots, id) {
            lemma_staying_lacks(session.slots, leaving, id);
            lemma_opening_opens(cfg.outputs@, kept, controls@, session.source, i);
            lemma_opening_only_opens(cfg.outputs@, kept, controls@, session.source);
            let k = choose|k: int| 0 <= k < tail.len() && touches(#[trigger] tail[k], id);
            assert(belongs(tail[k], session.source@, kept));
            assert(actions@[head.len() + k] == tail[k]);
            assert(opens_for(actions@[head.len() + k], cfg.source@, id));
        }
    } else {
        let none = Seq::<Output>::empty();
        let head = before.shutting();
        let tail = opening(cfg.outputs@, none, controls@, cfg.source);
        let open = Action::OpenCapture { source: cfg.source, fresh: true };
        assert(actions@ =~= head.push(open) + tail);
        assert(actions@[head.len() as int] == open);
        if before.session is Some {
            assert(actions@[head.len() - 1] == Action::CloseCapture);
        }
        assert(!has_slot(none, id));
        lemma_opening_opens(cfg.outputs@, none, controls@, cfg.source, i);
        lemma_opening_only_opens(cfg.outputs@, none, controls@, cfg.source);
        lemma_opening_belongs(cfg.outputs@, none, controls@, cfg.source, none);
        let k = choose|k: int| 0 <= k < tail.len() && touches(#[trigger] tail[k], id);
        assert(belongs(tail[k], cfg.source@, none));
        assert(actions@[head.len() + 1 + k] == tail[k]);
        assert(opens_for(actions@[head.len() + 1 + k], cfg.source@, id));
    }
}

/// Whether an action opens the output of that id for that source.
pub open spec fn opens_for(action: Action, source: Seq<char>, id: Seq<char>) -> bool {
    action matches Action::OpenMonitor { source: s, id: other } && s@ == source && other@ == id
}

proof fn lemma_staying_lacks(slots: Seq<Output>, leaving: Seq<bool>, id: Seq<char>)
    requires
        !has_slot(slots, id),
    ensures
        !has_slot(staying(slots, leaving), id),
    decreases slots.len(),
{
    if slots.len() > 0 {
        let front = slots.drop_last();
        assert forall|i: int| 0 <= i < front.len() implies (#[trigger] front[i]).id@ != id by {
            assert(slots[i].id@ != id);
        }
        lemma_staying_lacks(front, leaving, id);
        let kept = staying(front, leaving);
        let all = staying(slots, leaving);
        assert(slots[slots.len() - 1].id@ != id);
        assert forall|k: int| 0 <= k < all.len() implies (#[trigger] all[k]).id@ != id by {
            if k < kept.len() {
                assert(all[k] == kept[k]);
            }
        }
    }
}

/// Stopping closes every monitor that runs, with its own callback, and then the
/// capture; nothing is opened and no session is left. With nothing running
/// there is nothing to close.
pub proof fn law_stopping_closes_everything(
    sup: &mut Supervisor,
    actions: Vec<Action>,
    stopping: &mut Supervisor,
    cfg: EngineConfig,
    controls: &Vec<String>,
    stopped: Vec<Action>,
    i: int,
)
    requires
        call_ensures(Supervisor::shut_down, (sup,), actions),
        call_ensures(Supervisor::apply, (stopping, cfg, controls), stopped),
        cfg.outputs@.len() == 0,
        *old(stopping) == *old(sup),
    ensures
        final(sup)@.session is None,
        final(sup)@.cfg == old(sup)@.cfg,
        final(stopping)@.session is None,
        final(stopping)@.cfg is None,
        stopped@ == actions@,
        old(sup)@.session is None ==> actions@.len() == 0,
        old(sup)@.session is Some ==> actions@.len() > 0 && actions@.last() is CloseCapture,
        forall|k: int|
            0 <= k < actions@.len() ==> #[trigger] actions@[k] is CloseMonitor || actions@[k]
                is CloseCapture,
        old(sup)@.session matches Some(session) && 0 <= i < session.slots.len()
            && session.slots[i].slot is Active ==> actions@.contains(
            Action::CloseMonitor {
                id: old(sup)@.session->0.slots[i].id,
                callback: old(sup)@.session->0.slots[i].slot->callback,
            },
        ),
{
    if let Some(session) = old(sup)@.session {
        let leaving = everything(session.slots);
        let head = closing(session.slots, leaving);
        lemma_closing_belongs(session.slots, leaving, session.source@);
        assert forall|k: int| 0 <= k < actions@.len() implies #[trigger] actions@[k]
            is CloseMonitor || actions@[k] is CloseCapture by {
            if k < head.len() {
                assert(actions@[k] == head[k]);
            }
        }
        if 0 <= i < session.slots.len() && session.slots[i].slot is Active {
            lemma_closing_closes(session.slots, leaving, i);
            let wanted = Action::CloseMonitor {
                id: session.slots[i].id,
                callback: session.slots[i].slot->callback,
            };
            let k = choose|k: int| 0 <= k < head.len() && head[k] == wanted;
            assert(actions@[k] == wanted);
        }
    }
}

/// When the default output changes, the capture is opened again exactly where
/// it runs and says that it follows; all that is done is for the source of the
/// session. Every notification counts for the panel.
pub proof fn law_a_new_default_output_is_followed(
    sup: &mut Supervisor,
    event: SystemEvent,
    follows: bool,
    readings: &Vec<Option<MonitorState>>,
    controls: &Vec<String>,
    now: u64,
    actions: Vec<Action>,
)
    requires
        old(sup)@.devices_revision < u64::MAX,
        call_ensures(Supervisor::system, (sup, event, follows, readings, controls, now), actions),
    ensures
        final(sup)@.devices_revision == old(sup)@.devices_revision + 1,
        final(sup)@.cfg == old(sup)@.cfg,
        final(sup)@.retry == old(sup)@.retry,
        final(sup)@.session is Some == old(sup)@.session is Some,
        old(sup)@.session is None ==> actions@.len() == 0,
        old(sup)@.session matches Some(session) ==> {
            &&& final(sup)@.session->0.source == session.source
            &&& belong(actions@, session.source@, session.slots)
            &&& event is DefaultOutputChanged && follows && session.capture is Ok ==> reopens(
                actions@,
                session.source,
            ) && final(sup)@.session->0.capture is Err
            &&& event is DevicesChanged || !follows || session.capture is Err ==> keeps_capture(
                actions@,
            ) && final(sup)@.session->0.capture == session.capture
        },
{
    if let Some(session) = old(sup)@.session {
        let leaving = crate::audio::session::controlled(session.slots, controls@);
        let tail = reopening(session.slots, leaving, session.source);
        lemma_reopening_belongs(session.slots, leaving, session.source);
        lemma_reopening_keeps_capture(session.slots, leaving, session.source);
        let head = actions@.len() - tail.len();
        if event is DefaultOutputChanged {
            assert forall|k: int| 0 <= k < actions@.len() implies belongs(
                #[trigger] actions@[k],
                session.source@,
                session.slots,
            ) by {
                if k >= head {
                    assert(actions@[k] == tail[k - head]);
                }
            }
            if follows && session.capture is Ok {
                assert(actions@[1] == (Action::OpenCapture {
                    source: session.source,
                    fresh: false,
                }));
            } else {
                assert(actions@ =~= tail);
            }
        }
    }
}

/// What the panel shows is what there is: whether anything runs, the source as
/// it reports itself, and each configured output in its place, under its id.
pub proof fn law_the_panel_shows_what_there_is(
    sup: &Supervisor,
    unread: u32,
    heard: u32,
    st: Status,
    i: int,
)
    requires
        sup@.wf(),
        call_ensures(Supervisor::publish, (sup, unread, heard), st),
    ensures
        st.devices_revision == sup@.devices_revision,
        st.running <==> sup@.session is Some,
        !st.running ==> st.outputs@.len() == 0 && st.source.state is Idle,
        sup@.session matches Some(session) ==> {
            &&& match session.capture_state {
                CaptureState::Starting => st.source.state is Starting && st.source.message is None,
                CaptureState::Active { format } => st.source.state is Playing && st.source.format
                    == Some(format) && st.source.message is None,
                CaptureState::Retrying(why) => st.source.state is Error && st.source.message
                    == Some(why) && st.source.format is None,
                CaptureState::Failed(why) => st.source.state is Error && st.source.message
                    == Some(why) && st.source.format is None,
            }
            &&& st.outputs@.len() == sup@.cfg->0.outputs@.len()
            &&& 0 <= i < st.outputs@.len() ==> {
                let shown = st.outputs@[i];
                let id = sup@.cfg->0.outputs@[i].id@;
                &&& shown.id@ == id
                &&& !has_slot(session.slots, id) ==> shown.state is Starting
                &&& forall|k: int|
                    0 <= k < session.slots.len() && (#[trigger] session.slots[k]).id@ == id
                        ==> match session.slots[k].slot {
                        Slot::Active { state: MonitorState::Playing { format }, .. } => shown.state
                            is Playing && shown.format == Some(format) && shown.message is None,
                        Slot::Active { state: MonitorState::Reconnecting(why), .. } => shown.state
                            is Error && shown.message == Some(why),
                        Slot::Ignored => shown.state is Blocked,
                        Slot::Failed { error, .. } => shown.state is Error && shown.message
                            == Some(error),
                    }
            }
        },
{
    if let Some(session) = sup@.session {
        if 0 <= i < st.outputs@.len() {
            let id = sup@.cfg->0.outputs@[i].id@;
            lemma_find(session.slots, id);
        }
    }
}

proof fn lemma_find(slots: Seq<Output>, id: Seq<char>)
    ensures
        !has_slot(slots, id) ==> find_slot(slots, id) is None,
        distinct(slots) ==> forall|k: int|
            0 <= k < slots.len() && (#[trigger] slots[k]).id@ == id ==> find_slot(slots, id)
                == Some(slots[k].slot),
    decreases slots.len(),
{
    if slots.len() > 0 {
        let rest = slots.drop_first();
        lemma_find(rest, id);
        if !has_slot(slots, id) {
            assert(slots[0].id@ != id);
            assert forall|k: int| 0 <= k < rest.len() implies (#[trigger] rest[k]).id@ != id by {
                assert(slots[k + 1].id@ != id);
            }
        }
        if distinct(slots) {
            assert forall|a: int, b: int| 0 <= a < b < rest.len() implies (#[trigger] rest[a]).id@
                != (#[trigger] rest[b]).id@ by {
                assert(slots[a + 1].id@ != slots[b + 1].id@);
            }
            assert forall|k: int| 0 <= k < slots.len() && (#[trigger] slots[k]).id@
                == id implies find_slot(slots, id) == Some(slots[k].slot) by {
                if k > 0 {
                    assert(slots[0].id@ != slots[k].id@);
                    assert(rest[k - 1] == slots[k]);
                }
            }
        }
    }
}

/// The supervisor is put back on its feet after each of the first panics, and
/// given up on after so many; a round comes at least four times a second, and a
/// retry three seconds after what failed.
pub proof fn law_the_supervisor_gives_up_in_the_end(panics: u32, r: bool)
    requires
        call_ensures(crate::audio::session::may_run_again, (panics,), r),
    ensures
        r <==> panics <= 3,
        crate::audio::session::MONITOR_RETRY == 3_000_000_000,
        0 < crate::audio::session::TICK <= 250_000_000,
{
}

/// A slot is built again exactly where it is due: an output that could not be
/// opened once its time has come, a monitor once it has been failing for a full
/// delay, and the recorded output never.
pub proof fn law_a_slot_is_due_when_its_delay_is_over(slot: &Slot, now: u64, retry: u64, r: bool)
    requires
        call_ensures(crate::audio::session::slot_is_due, (slot, now, retry), r),
    ensures
        match *slot {
            Slot::Failed { retry_at, .. } => r <==> now >= retry_at,
            Slot::Active { failing_since: Some(since), .. } => r <==> now - since >= retry,
            Slot::Active { failing_since: None, .. } => !r,
            Slot::Ignored => !r,
        },
{
}

/// Starting over closes everything and opens it again as it is configured:
/// the source once, and each of its outputs that something controls. Without a
/// configuration there is nothing to start.
pub proof fn law_starting_over_opens_everything_again(
    sup: &mut Supervisor,
    controls: &Vec<String>,
    actions: Vec<Action>,
    i: int,
    k: int,
)
    requires
        old(sup)@.wf(),
        call_ensures(Supervisor::restart, (sup, controls), actions),
    ensures
        final(sup)@.cfg == old(sup)@.cfg,
        old(sup)@.cfg is None ==> actions@.len() == 0 && final(sup)@ == old(sup)@,
        old(sup)@.cfg matches Some(cfg) ==> {
            &&& actions@.contains(Action::OpenCapture { source: cfg.source, fresh: true })
            &&& final(sup)@.session is Some && final(sup)@.session->0.source@ == cfg.source@
            &&& final(sup)@.session->0.slots.len() == 0
            &&& old(sup)@.session is Some ==> actions@.contains(Action::CloseCapture)
            &&& 0 <= i < cfg.outputs@.len() && listed(controls@, cfg.outputs@[i].id@)
                ==> exists|n: int|
                0 <= n < actions@.len() && opens_for(
                    #[trigger] actions@[n],
                    cfg.source@,
                    cfg.outputs@[i].id@,
                )
            &&& old(sup)@.session is Some && 0 <= k < old(sup)@.session->0.slots.len() && old(sup)@.session->0.slots[k].slot is Active ==> actions@.contains(
                Action::CloseMonitor {
                    id: old(sup)@.session->0.slots[k].id,
                    callback: old(sup)@.session->0.slots[k].slot->callback,
                },
            )
        },
{
    if let Some(cfg) = old(sup)@.cfg {
        let head = old(sup)@.shutting();
        let none = Seq::<Output>::empty();
        let tail = opening(cfg.outputs@, none, controls@, cfg.source);
        let open = Action::OpenCapture { source: cfg.source, fresh: true };
        assert(actions@ =~= head + (seq![open] + tail));
        assert(actions@[head.len() as int] == open);
        if let Some(session) = old(sup)@.session {
            assert(actions@[head.len() - 1] == Action::CloseCapture);
            if 0 <= k < session.slots.len() && session.slots[k].slot is Active {
                let leaving = everything(session.slots);
                let closed = closing(session.slots, leaving);
                lemma_closing_closes(session.slots, leaving, k);
                let wanted = Action::CloseMonitor {
                    id: session.slots[k].id,
                    callback: session.slots[k].slot->callback,
                };
                let n = choose|n: int| 0 <= n < closed.len() && closed[n] == wanted;
                assert(actions@[n] == wanted);
            }
        }
        if 0 <= i < cfg.outputs@.len() && listed(controls@, cfg.outputs@[i].id@) {
            let id = cfg.outputs@[i].id@;
            assert(!has_slot(none, id));
            lemma_opening_opens(cfg.outputs@, none, controls@, cfg.source, i);
            lemma_opening_only_opens(cfg.outputs@, none, controls@, cfg.source);
            lemma_opening_belongs(cfg.outputs@, none, controls@, cfg.source, none);
            let n = choose|n: int| 0 <= n < tail.len() && touches(#[trigger] tail[n], id);
            assert(belongs(tail[n], cfg.source@, none));
            assert(actions@[head.len() + 1 + n] == tail[n]);
            assert(opens_for(actions@[head.len() + 1 + n], cfg.source@, id));
        }
    }
}

/// An output is awaited from when its source is opened until it is known what
/// became of it, and only while it is configured.
pub proof fn law_an_output_is_awaited_until_it_is_known(
    sup: &mut Supervisor,
    id: String,
    outcome: Result<MonitorInit, Message>,
    now: u64,
    before: bool,
    name: &str,
    after: &Supervisor,
    awaited: bool,
)
    requires
        old(sup)@.wf(),
        name@ == id@,
        call_ensures(Supervisor::is_awaiting, (old(sup), name), before),
        before,
        call_ensures(Supervisor::monitor_opened, (sup, id, outcome, now), ()),
        *after == *final(sup),
        call_ensures(Supervisor::is_awaiting, (after, name), awaited),
    ensures
        old(sup)@.session is Some && old(sup)@.cfg is Some,
        exists|i: int|
            0 <= i < old(sup)@.cfg->0.outputs@.len() && (
            #[trigger] old(sup)@.cfg->0.outputs@[i]).id@ == id@,
        !has_slot(old(sup)@.session->0.slots, id@),
        !awaited,
{
    let slots = final(sup)@.session->0.slots;
    assert(slots[slots.len() - 1].id == id);
}

/// A new supervisor has nothing to do, and waits as long as it is told between
/// two tries.
pub proof fn law_a_new_supervisor_has_nothing_to_do(retry: u64, sup: Supervisor)
    requires
        call_ensures(Supervisor::new, (retry,), sup),
    ensures
        sup@.retry == retry,
        sup@.cfg is None && sup@.session is None && sup@.devices_revision == 0,
{
}

/// A copy is what it was made of.
pub proof fn law_copies_are_equal(
    capture: &CaptureState,
    a: CaptureState,
    monitor: &MonitorState,
    b: MonitorState,
    slot: &Slot,
    c: Slot,
    output: &Output,
    d: Output,
    message: &Message,
    e: Message,
    spec: &OutputSpec,
    f: OutputSpec,
)
    requires
        call_ensures(CaptureState::clone, (capture,), a),
        call_ensures(MonitorState::clone, (monitor,), b),
        call_ensures(Slot::clone, (slot,), c),
        call_ensures(Output::clone, (output,), d),
        call_ensures(Message::clone, (message,), e),
        call_ensures(OutputSpec::clone, (spec,), f),
    ensures
        a == *capture && b == *monitor && c == *slot && d == *output && e == *message && f == *spec,
{
}

/// Nothing runs at first.
pub proof fn law_nothing_runs_at_first(st: Status, list: crate::audio::DeviceList)
    requires
        call_ensures(Status::default, (), st),
        call_ensures(crate::audio::DeviceList::default, (), list),
    ensures
        !st.running && st.outputs@.len() == 0 && st.source.state is Idle && st.devices_revision == 0,
        st.source.message is None && st.source.format is None && st.source.peak == 0,
        list.sources@.len() == 0 && list.outputs@.len() == 0,
{
}

/// Whether the actions close the monitor of that callback and then, at once,
/// open its output again for that source.
pub open spec fn closes_and_opens(
    actions: Seq<Action>,
    source: String,
    id: String,
    callback: u64,
) -> bool {
    exists|k: int| #![trigger actions[k]]
        0 <= k < actions.len() - 1 && actions[k] == (Action::CloseMonitor { id, callback })
            && actions[k + 1] == (Action::OpenMonitor { source, id })
}

proof fn lemma_reopening_closes_first(
    slots: Seq<Output>,
    leaving: Seq<bool>,
    source: String,
    i: int,
)
    requires
        leaving.len() >= slots.len(),
        0 <= i < slots.len(),
        leaving[i],
        slots[i].slot is Active,
    ensures
        closes_and_opens(
            reopening(slots, leaving, source),
            source,
            slots[i].id,
            slots[i].slot->callback,
        ),
    decreases slots.len(),
{
    let front = slots.drop_last();
    let before = reopening(front, leaving, source);
    let all = reopening(slots, leaving, source);
    let close = Action::CloseMonitor { id: slots[i].id, callback: slots[i].slot->callback };
    if i == slots.len() - 1 {
        let k = before.len() as int;
        assert(all[k] == close);
        assert(all[k + 1] == (Action::OpenMonitor { source, id: slots[i].id }));
    } else {
        lemma_reopening_closes_first(front, leaving, source, i);
        let k = choose|k: int| #![trigger before[k]]
            0 <= k < before.len() - 1 && before[k] == close && before[k + 1] == (
            Action::OpenMonitor { source, id: slots[i].id });
        assert(all[k] == before[k]);
        assert(all[k + 1] == before[k + 1]);
    }
}

proof fn lemma_behind(head: Seq<Action>, tail: Seq<Action>, source: String, id: String, callback: u64)
    requires
        closes_and_opens(tail, source, id, callback),
    ensures
        closes_and_opens(head + tail, source, id, callback),
{
    let close = Action::CloseMonitor { id, callback };
    let k = choose|k: int| #![trigger tail[k]]
        0 <= k < tail.len() - 1 && tail[k] == close && tail[k + 1] == (Action::OpenMonitor {
            source,
            id,
        });
    let all = head + tail;
    assert(all[head.len() + k] == tail[k]);
    assert(all[head.len() + k + 1] == tail[k + 1]);
}

/// A monitor that has been failing for a full retry delay is closed, and its
/// device released, before its output is opened again; its slot is gone until it
/// is known what became of it. An output that nothing controls is not touched.
pub proof fn law_a_monitor_is_closed_before_it_is_opened_again(
    sup: &mut Supervisor,
    reading: &CaptureState,
    readings: &Vec<Option<MonitorState>>,
    controls: &Vec<String>,
    now: u64,
    actions: Vec<Action>,
    i: int,
)
    requires
        old(sup)@.wf(),
        old(sup)@.session is Some,
        readings@.len() == old(sup)@.session->0.slots.len(),
        0 <= i < readings@.len(),
        call_ensures(Supervisor::tick, (sup, reading, readings, controls, now), actions),
    ensures
        ({
            let session = old(sup)@.session->0;
            let output = session.slots[i];
            let failing = readings@[i] matches Some(state) && state is Reconnecting;
            let controlled = listed(controls@, output.id@);
            &&& controlled && failing && (output.slot matches Slot::Active {
                failing_since: Some(since),
                ..
            } && now - since >= old(sup)@.retry) ==> closes_and_opens(
                actions@,
                session.source,
                output.id,
                output.slot->callback,
            ) && !has_slot(final(sup)@.session->0.slots, output.id@)
            &&& !controlled ==> leaves_alone(actions@, output.id@) && has_slot(
                final(sup)@.session->0.slots,
                output.id@,
            )
        }),
{
    let session = old(sup)@.session->0;
    let output = session.slots[i];
    let slots = observed_slots(session.slots, readings@, now);
    let leaving = rebuilding(slots, controls@, now, old(sup)@.retry);
    let tail = reopening(slots, leaving, session.source);
    let head = actions@.take(actions@.len() - tail.len());
    assert(actions@ =~= head + tail);
    assert forall|a: int, b: int| 0 <= a < b < slots.len() implies (#[trigger] slots[a]).id@ != (
    #[trigger] slots[b]).id@ by {
        assert(session.slots[a].id@ != session.slots[b].id@);
    }
    assert forall|k: int| 0 <= k < slots.len() && (#[trigger] slots[k]).id@ == output.id@ implies k
        == i by {
        if k < i {
            assert(slots[k].id@ != slots[i].id@);
        } else if k > i {
            assert(slots[i].id@ != slots[k].id@);
        }
    }
    if listed(controls@, output.id@) {
        if leaving[i] && slots[i].slot is Active {
            lemma_reopening_closes_first(slots, leaving, session.source, i);
            lemma_behind(head, tail, session.source, output.id, slots[i].slot->callback);
            lemma_staying_drops(slots, leaving, output.id@);
        }
    } else {
        lemma_reopening_touches_leaving(slots, leaving, session.source, output.id@);
        assert forall|k: int| 0 <= k < actions@.len() implies !touches(
            #[trigger] actions@[k],
            output.id@,
        ) by {
            if k >= head.len() {
                assert(actions@[k] == tail[k - head.len()]);
            } else {
                assert(actions@[k] is CloseCapture || actions@[k] is OpenCapture);
            }
        }
        lemma_staying_keeps(slots, leaving, i);
        let kept = staying(slots, leaving);
        let k = choose|k: int| 0 <= k < kept.len() && kept[k] == slots[i];
        assert(kept[k].id@ == output.id@);
    }
}

/// A round keeps a monitor that plays with what it reports, and any failure that
/// it had forgotten; the recorded output stays as it is.
pub proof fn law_a_round_keeps_what_plays(
    sup: &mut Supervisor,
    reading: &CaptureState,
    readings: &Vec<Option<MonitorState>>,
    controls: &Vec<String>,
    now: u64,
    actions: Vec<Action>,
    i: int,
)
    requires
        old(sup)@.wf(),
        old(sup)@.session is Some,
        readings@.len() == old(sup)@.session->0.slots.len(),
        0 <= i < readings@.len(),
        call_ensures(Supervisor::tick, (sup, reading, readings, controls, now), actions),
        old(sup)@.session->0.slots[i].slot is Ignored || (old(sup)@.session->0.slots[i].slot
            is Active && (readings@[i] matches Some(state) && state is Playing)),
    ensures
        leaves_alone(actions@, old(sup)@.session->0.slots[i].id@),
        old(sup)@.session->0.slots[i].slot is Ignored ==> final(sup)@.session->0.slots.contains(
            old(sup)@.session->0.slots[i],
        ),
        old(sup)@.session->0.slots[i].slot is Active ==> final(sup)@.session->0.slots.contains(
            Output {
                id: old(sup)@.session->0.slots[i].id,
                slot: Slot::Active {
                    callback: old(sup)@.session->0.slots[i].slot->callback,
                    state: readings@[i]->0,
                    failing_since: None,
                },
            },
        ),
{
    let session = old(sup)@.session->0;
    let slots = observed_slots(session.slots, readings@, now);
    let leaving = rebuilding(slots, controls@, now, old(sup)@.retry);
    lemma_tick_leaves_alone(session, *reading, readings@, controls@, now, old(sup)@.retry, i);
    lemma_staying_keeps(slots, leaving, i);
}

/// A change of the devices keeps every slot in its place, with its output and
/// its callback; a monitor that plays and had not failed is not taken for
/// failing, and the recorded output stays.
pub proof fn law_a_change_of_devices_keeps_what_plays(
    sup: &mut Supervisor,
    follows: bool,
    readings: &Vec<Option<MonitorState>>,
    controls: &Vec<String>,
    t: u64,
    told: Vec<Action>,
    i: int,
)
    requires
        old(sup)@.session is Some,
        readings@.len() == old(sup)@.session->0.slots.len(),
        0 <= i < readings@.len(),
        call_ensures(
            Supervisor::system,
            (sup, SystemEvent::DevicesChanged, follows, readings, controls, t),
            told,
        ),
    ensures
        ({
            let before = old(sup)@.session->0.slots[i];
            let after = final(sup)@.session->0.slots[i];
            &&& final(sup)@.session->0.slots.len() == old(sup)@.session->0.slots.len()
            &&& after.id == before.id
            &&& before.slot is Ignored ==> after.slot is Ignored
            &&& before.slot is Failed ==> (after.slot matches Slot::Failed { error, .. } && error
                == before.slot->error)
            &&& before.slot is Active ==> after.slot is Active && after.slot->callback
                == before.slot->callback
            &&& (before.slot matches Slot::Active { failing_since: None, .. }) && (readings@[i]
                matches Some(state) && state is Playing) ==> (after.slot matches Slot::Active {
                failing_since: None,
                state,
                ..
            } && state == readings@[i]->0)
        }),
{
}

/// A change of the default output opens every controlled output again, a monitor
/// that runs being closed first, and leaves the others alone.
pub proof fn law_a_new_default_output_reopens_what_is_controlled(
    sup: &mut Supervisor,
    follows: bool,
    readings: &Vec<Option<MonitorState>>,
    controls: &Vec<String>,
    now: u64,
    actions: Vec<Action>,
    i: int,
)
    requires
        old(sup)@.wf(),
        old(sup)@.session is Some,
        0 <= i < old(sup)@.session->0.slots.len(),
        call_ensures(
            Supervisor::system,
            (sup, SystemEvent::DefaultOutputChanged, follows, readings, controls, now),
            actions,
        ),
    ensures
        ({
            let session = old(sup)@.session->0;
            let output = session.slots[i];
            let controlled = listed(controls@, output.id@);
            &&& controlled ==> opens(actions@, session.source, output.id) && !has_slot(
                final(sup)@.session->0.slots,
                output.id@,
            )
            &&& controlled && output.slot is Active ==> closes_and_opens(
                actions@,
                session.source,
                output.id,
                output.slot->callback,
            )
            &&& !controlled ==> leaves_alone(actions@, output.id@) && final(sup)@.session->0.slots.contains(output)
        }),
{
    let session = old(sup)@.session->0;
    let output = session.slots[i];
    let slots = session.slots;
    let leaving = crate::audio::session::controlled(slots, controls@);
    let tail = reopening(slots, leaving, session.source);
    let head = actions@.take(actions@.len() - tail.len());
    assert(actions@ =~= head + tail);
    assert forall|k: int| 0 <= k < slots.len() && (#[trigger] slots[k]).id@ == output.id@ implies k
        == i by {
        if k < i {
            assert(slots[k].id@ != slots[i].id@);
        } else if k > i {
            assert(slots[i].id@ != slots[k].id@);
        }
    }
    if listed(controls@, output.id@) {
        lemma_reopening_opens(slots, leaving, session.source, i);
        let wanted = Action::OpenMonitor { source: session.source, id: output.id };
        let k = choose|k: int| 0 <= k < tail.len() && tail[k] == wanted;
        assert(actions@[head.len() + k] == wanted);
        lemma_staying_drops(slots, leaving, output.id@);
        if output.slot is Active {
            lemma_reopening_closes_first(slots, leaving, session.source, i);
            lemma_behind(head, tail, session.source, output.id, output.slot->callback);
        }
    } else {
        lemma_reopening_touches_leaving(slots, leaving, session.source, output.id@);
        assert forall|k: int| 0 <= k < actions@.len() implies !touches(
            #[trigger] actions@[k],
            output.id@,
        ) by {
            if k >= head.len() {
                assert(actions@[k] == tail[k - head.len()]);
            } else {
                assert(actions@[k] is CloseCapture || actions@[k] is OpenCapture);
            }
        }
        lemma_staying_keeps(slots, leaving, i);
    }
}

/// A source that is new is shown as starting, with its outputs, until it is
/// known what opening it came to; until then any round may open it.
pub proof fn law_a_new_source_is_starting(
    sup: &mut Supervisor,
    cfg: EngineConfig,
    controls: &Vec<String>,
    actions: Vec<Action>,
    after: &Supervisor,
    unread: u32,
    heard: u32,
    st: Status,
    ticking: &mut Supervisor,
    reading: &CaptureState,
    readings: &Vec<Option<MonitorState>>,
    now: u64,
    later_actions: Vec<Action>,
    i: int,
)
    requires
        old(sup)@.wf(),
        cfg.outputs@.len() > 0,
        old(sup)@.session is None || old(sup)@.session->0.source@ != cfg.source@,
        call_ensures(Supervisor::apply, (sup, cfg, controls), actions),
        *after == *final(sup),
        call_ensures(Supervisor::publish, (after, unread, heard), st),
        *old(ticking) == *final(sup),
        call_ensures(Supervisor::tick, (ticking, reading, readings, controls, now), later_actions),
        0 <= i < cfg.outputs@.len(),
    ensures
        st.running && st.source.state is Starting && st.source.message is None,
        st.outputs@.len() == cfg.outputs@.len(),
        st.outputs@[i].state is Starting && st.outputs@[i].id@ == cfg.outputs@[i].id@,
        reopens(later_actions@, cfg.source),
{
    lemma_tick_capture(
        old(ticking)@.session->0,
        *reading,
        readings@,
        controls@,
        now,
        old(ticking)@.retry,
    );
}

} // verus!
