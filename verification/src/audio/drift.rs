//! The phases of clock drift compensation.
//!
//! A monitor is written at the pace of the captured device and read at the
//! pace of the played one. The control loop watches how much audio is queued
//! ahead of the device and moves the resampler's ratio by a few millionths to
//! keep that amount where it was when the output started. The levels are
//! floating point and computed by the caller; which phase the loop is in, and
//! so what it does with them, is decided here.

use vstd::prelude::*;

verus! {

/// What the caller finds of the loop when a packet arrives.
#[derive(Debug, Clone, Copy, PartialEq, Eq, Structural)]
pub struct Reading {
    /// The first buffers of the device are filled.
    pub settled: bool,
    /// The level moved too much since the last packet to have drifted.
    pub jumped: bool,
    /// Enough audio was averaged for the loop to be updated.
    pub window_full: bool,
    /// The averages began with this window.
    pub first_window: bool,
    /// Enough audio was averaged for the level to be held.
    pub level_known: bool,
}

/// What the loop does with a packet.
#[derive(Debug, Clone, Copy, PartialEq, Eq, Structural)]
pub enum DriftStep {
    /// Nothing: the device fills its first buffers.
    Settle,
    /// Take the level again from the next packets. The drift that was
    /// estimated is kept.
    Relock,
    /// Add the level to the window's average.
    Gather,
    /// Filter the window's average; start the filter there where `restart`,
    /// and hold the level where `lock`.
    Seek { restart: bool, lock: bool },
    /// Filter the average and correct the distance to the level held.
    Correct,
}

/// The phases of the loop: whether a level is held, and since when audio is
/// averaged.
#[derive(Debug, Clone, Copy, PartialEq, Eq, Structural)]
pub struct DriftPhase {
    pub locked: bool,
}

impl DriftPhase {
    pub fn new() -> (r: Self)
        ensures
            !r.locked,
    {
        DriftPhase { locked: false }
    }

    /// What is done with a packet.
    pub open spec fn step(self, r: Reading) -> DriftStep {
        if !r.settled {
            DriftStep::Settle
        } else if r.jumped {
            DriftStep::Relock
        } else if !r.window_full {
            DriftStep::Gather
        } else if self.locked {
            DriftStep::Correct
        } else {
            DriftStep::Seek { restart: r.first_window, lock: r.level_known }
        }
    }

    /// The phase afterwards.
    pub open spec fn after(self, r: Reading) -> DriftPhase {
        match self.step(r) {
            DriftStep::Relock => DriftPhase { locked: false },
            DriftStep::Seek { restart, lock } => DriftPhase { locked: lock },
            _ => self,
        }
    }

    /// Takes a packet.
    pub fn update(&mut self, r: Reading) -> (step: DriftStep)
        ensures
            step == old(self).step(r),
            *final(self) == old(self).after(r),
    {
        if !r.settled {
            return DriftStep::Settle;
        }
        if r.jumped {
            self.locked = false;
            return DriftStep::Relock;
        }
        if !r.window_full {
            return DriftStep::Gather;
        }
        if self.locked {
            DriftStep::Correct
        } else {
            self.locked = r.level_known;
            DriftStep::Seek { restart: r.first_window, lock: r.level_known }
        }
    }

    /// Whether the correction is written to the log: a level has to be held,
    /// and enough audio to have passed.
    pub fn report(&self, due: bool) -> (r: bool)
        ensures
            r == (self.locked && due),
    {
        self.locked && due
    }
}

/// The correction only moves while a level is held, and a level is held until
/// the queue jumps.
pub proof fn law_only_a_held_level_is_corrected(phase: DriftPhase, r: Reading)
    ensures
        phase.step(r) is Correct ==> phase.locked && phase.after(r).locked,
        phase.locked && !phase.after(r).locked ==> phase.step(r) is Relock,
        !phase.locked && phase.after(r).locked ==> (phase.step(r) matches DriftStep::Seek {
            restart,
            lock,
        } && lock),
{
}

/// A packet is let pass until the device has settled; a jump lets go of the
/// level; a window that is not full is gathered. A full one is corrected by
/// where a level is held, and else looks for one, which is held as soon as it
/// is known.
pub proof fn law_the_loop_holds_a_level_until_it_jumps(
    phase: &mut DriftPhase,
    r: Reading,
    step: DriftStep,
)
    requires
        call_ensures(DriftPhase::update, (phase, r), step),
    ensures
        step is Settle <==> !r.settled,
        step is Relock <==> r.settled && r.jumped,
        step is Gather <==> r.settled && !r.jumped && !r.window_full,
        step is Correct <==> r.settled && !r.jumped && r.window_full && old(phase).locked,
        step matches DriftStep::Seek { restart, lock } ==> restart == r.first_window && lock
            == r.level_known && final(phase).locked == r.level_known,
        step is Relock ==> !final(phase).locked,
        step is Settle || step is Gather || step is Correct ==> final(phase).locked
            == old(phase).locked,
{
}

/// A new loop holds no level and reports nothing; one that holds a level
/// reports when it is due.
pub proof fn law_only_a_held_level_is_reported(
    phase: DriftPhase,
    any: &DriftPhase,
    due: bool,
    r: bool,
)
    requires
        call_ensures(DriftPhase::new, (), phase),
        call_ensures(DriftPhase::report, (any, due), r),
    ensures
        !phase.locked,
        r <==> any.locked && due,
{
}

} // verus!
