//! Volume handling shared by every monitor.

use crate::float;
use crate::float::AtomicF32;
use std::sync::atomic::{AtomicBool, Ordering};
use vstd::prelude::*;

verus! {

/// The gain that is heard: none where the output is muted.
pub open spec fn heard(gain: u32, muted: bool) -> u32 {
    if muted {
        float::ZERO
    } else {
        gain
    }
}

/// The gain that is heard of a control.
pub fn volume_of(gain: u32, muted: bool) -> (r: u32)
    ensures
        r == heard(gain, muted),
{
    if muted {
        float::ZERO
    } else {
        gain
    }
}

/// Applies a volume to samples, given what multiplying them by it makes of
/// them. At unity gain the samples stay as they are. Returns the peak of what
/// is played.
pub fn apply_volume(samples: &mut Vec<u32>, vol: u32, scaled: &Vec<u32>) -> (level: u32)
    requires
        scaled@.len() == old(samples)@.len(),
    ensures
        final(samples)@ == if float::nearly_one(vol) {
            old(samples)@
        } else {
            scaled@
        },
        level == float::peak_of(final(samples)@),
        level <= float::INFINITY,
{
    if !float::unity(vol) {
        let mut i: usize = 0;
        while i < scaled.len()
            invariant
                i <= scaled@.len(),
                samples@.len() == scaled@.len(),
                samples@.take(i as int) =~= scaled@.take(i as int),
            decreases scaled@.len() - i,
        {
            samples[i] = scaled[i];
            i += 1;
        }
        assert(samples@.take(i as int) =~= samples@);
        assert(scaled@.take(i as int) =~= scaled@);
    }
    float::peak(samples.as_slice())
}

/// Per-output controls, shared with the thread that plays. Any thread may
/// change them at any time, so no contract speaks of what they hold.
#[derive(Debug)]
pub struct OutputShared {
    pub gain: AtomicF32,
    pub muted: AtomicBool,
    /// Peak written since the last read, after volume.
    pub peak: AtomicF32,
}

impl OutputShared {
    pub fn new(gain: u32, muted: bool) -> Self {
        OutputShared {
            gain: AtomicF32::new(gain),
            muted: AtomicBool::new(muted),
            peak: AtomicF32::new(float::ZERO),
        }
    }

    /// Volume for this packet: see [`volume_of`].
    pub fn volume(&self) -> u32 {
        let muted = self.muted.load(Ordering::Relaxed);
        let gain: u32 = self.gain.load();
        volume_of(gain, muted)
    }

    /// Applies a volume to samples with [`apply_volume`], and records the peak
    /// of what is played.
    pub fn apply_f32(&self, samples: &mut Vec<u32>, vol: u32, scaled: &Vec<u32>)
        requires
            scaled@.len() == old(samples)@.len(),
        ensures
            final(samples)@ == if float::nearly_one(vol) {
                old(samples)@
            } else {
                scaled@
            },
    {
        let level: u32 = apply_volume(samples, vol, scaled);
        self.record_peak(level);
    }

    /// Records the peak of samples that were scaled elsewhere.
    pub fn record_peak(&self, peak: u32) {
        self.peak.raise(peak);
    }
}

/// A muted output is heard at no gain, whatever its slider says, and comes
/// back at the same gain.
pub proof fn law_mute_wins(gain: u32)
    ensures
        heard(gain, true) == float::ZERO,
        heard(gain, false) == gain,
        !float::nearly_one(heard(gain, true)),
{
}

/// A muted output is heard at no gain, and any other at its own; what is played
/// is what was scaled, or the samples themselves at unity gain. No sample is
/// louder than the level that is shown, and one is as loud.
pub proof fn law_a_volume_is_applied(
    gain: u32,
    silent: u32,
    loud: u32,
    samples: &mut Vec<u32>,
    vol: u32,
    scaled: &Vec<u32>,
    level: u32,
)
    requires
        call_ensures(volume_of, (gain, true), silent),
        call_ensures(volume_of, (gain, false), loud),
        call_ensures(apply_volume, (samples, vol, scaled), level),
        scaled@.len() == old(samples)@.len(),
    ensures
        silent == 0,
        loud == gain,
        final(samples)@ == old(samples)@ || final(samples)@ == scaled@,
        final(samples)@.len() == old(samples)@.len(),
        vol == 0 ==> final(samples)@ == scaled@,
        vol == 0x3f80_0000 ==> final(samples)@ == old(samples)@,
        forall|i: int|
            0 <= i < final(samples)@.len() && !float::is_nan(#[trigger] final(samples)@[i])
                ==> float::magnitude(final(samples)@[i]) <= level,
        level > 0 ==> exists|i: int|
            0 <= i < final(samples)@.len() && float::magnitude(#[trigger] final(samples)@[i])
                == level,
{
    float::law_peak_is_the_loudest_sample(final(samples)@);
}

/// What is played of an output is what was scaled, or the samples themselves at
/// a gain of one.
pub proof fn law_an_output_plays_what_was_scaled(
    shared: &OutputShared,
    samples: &mut Vec<u32>,
    vol: u32,
    scaled: &Vec<u32>,
    level: u32,
    direct: &mut Vec<u32>,
)
    requires
        scaled@.len() == old(samples)@.len(),
        call_ensures(OutputShared::apply_f32, (shared, samples, vol, scaled), ()),
        old(direct)@ == old(samples)@,
        call_ensures(apply_volume, (direct, vol, scaled), level),
    ensures
        final(samples)@ == final(direct)@,
        vol == 0 ==> final(samples)@ == scaled@,
        vol == 0x3f80_0000 ==> final(samples)@ == old(samples)@,
{
}

} // verus!
