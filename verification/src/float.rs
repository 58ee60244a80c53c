//! Single-precision samples and gains as bit patterns.
//!
//! The library moves, compares and limits samples; it never computes with
//! them. A sample is carried as its IEEE 754 pattern, and the comparisons
//! below are those of the numbers the patterns stand for.

use std::sync::atomic::{AtomicU32, Ordering};
use vstd::prelude::*;

verus! {

/// The pattern of `0.0`.
pub const ZERO: u32 = 0;

/// The pattern of `1.0`.
pub const ONE: u32 = 0x3f80_0000;

/// The patterns from here on carry the sign bit.
pub const SIGN: u32 = 0x8000_0000;

/// The pattern of positive infinity.
pub const INFINITY: u32 = 0x7f80_0000;

/// The pattern without its sign: that of the absolute value.
pub open spec fn magnitude(x: u32) -> u32 {
    if x >= SIGN {
        (x - SIGN) as u32
    } else {
        x
    }
}

pub open spec fn is_nan(x: u32) -> bool {
    magnitude(x) > INFINITY
}

pub open spec fn is_finite(x: u32) -> bool {
    magnitude(x) < INFINITY
}

/// A number that orders the patterns like the values they stand for; the two
/// zeros have the same place.
pub open spec fn place(x: u32) -> int {
    if x >= SIGN {
        -(magnitude(x) as int)
    } else {
        x as int
    }
}

/// `a > b` of the values: never true of a NaN.
pub open spec fn greater(a: u32, b: u32) -> bool {
    !is_nan(a) && !is_nan(b) && place(a) > place(b)
}

/// The maximum of `level` and the absolute value of `sample`; a NaN sample
/// counts for nothing.
pub open spec fn louder(level: u32, sample: u32) -> u32 {
    if is_nan(sample) || magnitude(sample) <= level {
        level
    } else {
        magnitude(sample)
    }
}

/// The loudest absolute value among the samples, zero when there are none.
pub open spec fn peak_of(samples: Seq<u32>) -> u32
    decreases samples.len(),
{
    if samples.len() == 0 {
        ZERO
    } else {
        louder(peak_of(samples.drop_last()), samples.last())
    }
}

/// A value kept within `0.0 ..= 1.0`; what is not finite becomes `1.0`.
pub open spec fn unit_of(x: u32) -> u32 {
    if !is_finite(x) {
        ONE
    } else if place(x) < 0 {
        ZERO
    } else if place(x) > place(ONE) {
        ONE
    } else {
        x
    }
}

/// The pattern of the absolute value.
pub fn absolute(x: u32) -> (r: u32)
    ensures
        r == magnitude(x),
{
    if x >= SIGN {
        x - SIGN
    } else {
        x
    }
}

/// `a > b`, as the processor compares the two values.
pub fn exceeds(a: u32, b: u32) -> (r: bool)
    ensures
        r == greater(a, b),
{
    let ma: u32 = absolute(a);
    let mb: u32 = absolute(b);
    if ma > INFINITY || mb > INFINITY {
        false
    } else if a >= SIGN {
        b >= SIGN && ma < mb
    } else if b >= SIGN {
        ma > 0 || mb > 0
    } else {
        ma > mb
    }
}

/// The greater of two levels: `current`, or `value` where that exceeds it.
pub open spec fn raised_to(current: u32, value: u32) -> u32 {
    if greater(value, current) {
        value
    } else {
        current
    }
}

/// `current` raised to `value` where that is greater.
pub fn raised(current: u32, value: u32) -> (r: u32)
    ensures
        r == raised_to(current, value),
{
    if exceeds(value, current) {
        value
    } else {
        current
    }
}

/// The pattern that replaces `current` when it is raised to `value`: none
/// where it stays.
pub fn raise_from(current: u32, value: u32) -> (r: Option<u32>)
    ensures
        r == if greater(value, current) {
            Some(value)
        } else {
            None
        },
{
    if exceeds(value, current) {
        Some(value)
    } else {
        None
    }
}

/// Calls `AtomicU32::fetch_update` with [`raise_from`]: whatever the number
/// holds by then is replaced where `value` is greater. Other threads may
/// change it at any time, so nothing is claimed of what it holds.
#[verifier::external_body]
fn raise_shared(number: &AtomicU32, value: u32) {
    let _ = number.fetch_update(
        Ordering::Relaxed,
        Ordering::Relaxed,
        |current| raise_from(current, value),
    );
}

/// A number shared between threads without a lock, as a pattern. Any thread
/// may change it at any time, so no contract speaks of what it holds.
#[derive(Debug)]
pub struct AtomicF32(AtomicU32);

impl AtomicF32 {
    pub fn new(v: u32) -> Self {
        AtomicF32(AtomicU32::new(v))
    }

    pub fn load(&self) -> u32 {
        self.0.load(Ordering::Relaxed)
    }

    pub fn store(&self, v: u32) {
        self.0.store(v, Ordering::Relaxed)
    }

    /// Keeps the maximum of the current value and `v`.
    pub fn raise(&self, v: u32) {
        raise_shared(&self.0, v);
    }

    /// Reads the value and resets it to zero.
    pub fn take(&self) -> u32 {
        self.0.swap(ZERO, Ordering::Relaxed)
    }
}

/// The loudest absolute value among the samples.
pub fn peak(samples: &[u32]) -> (r: u32)
    ensures
        r == peak_of(samples@),
        r <= INFINITY,
{
    let mut level: u32 = ZERO;
    let mut i: usize = 0;
    while i < samples.len()
        invariant
            i <= samples@.len(),
            level == peak_of(samples@.take(i as int)),
            level <= INFINITY,
        decreases samples@.len() - i,
    {
        let m: u32 = absolute(samples[i]);
        if m <= INFINITY && m > level {
            level = m;
        }
        assert(samples@.take(i + 1).drop_last() =~= samples@.take(i as int));
        i += 1;
    }
    assert(samples@.take(i as int) =~= samples@);
    level
}

/// Keeps a value within `0.0 ..= 1.0`; what is not finite becomes `1.0`.
pub fn unit(x: u32) -> (r: u32)
    ensures
        r == unit_of(x),
{
    if absolute(x) >= INFINITY {
        ONE
    } else if x >= SIGN {
        if absolute(x) > 0 {
            ZERO
        } else {
            x
        }
    } else if x > ONE {
        ONE
    } else {
        x
    }
}

/// The value of a pattern from a half up to two, in steps of `2^-24`.
pub open spec fn near_one_scaled(x: u32) -> int {
    if x < ONE {
        x - 0x3f00_0000 + 0x80_0000
    } else {
        2 * (x - ONE + 0x80_0000)
    }
}

/// Whether a value is within `1e-4` of `1.0`. The nearest number to `1e-4` is
/// `13743895 * 2^-37`, and next to one the difference of two numbers is
/// exact.
pub open spec fn nearly_one(x: u32) -> bool {
    &&& 0x3f00_0000 <= x < 0x4000_0000
    &&& -13743895 <= (near_one_scaled(x) - 0x100_0000) * 0x2000 <= 13743895
}

/// Whether a gain is close enough to `1.0` to leave samples as they are.
pub fn unity(x: u32) -> (r: bool)
    ensures
        r == nearly_one(x),
{
    ONE - 1677 <= x && x <= ONE + 838
}

/// No sample that is a number is louder than the peak, and the peak is
/// either silence or the level of one of the samples.
pub proof fn law_peak_is_the_loudest_sample(samples: Seq<u32>)
    ensures
        forall|i: int|
            0 <= i < samples.len() && !is_nan(#[trigger] samples[i]) ==> magnitude(samples[i])
                <= peak_of(samples),
        peak_of(samples) == ZERO || exists|i: int|
            0 <= i < samples.len() && peak_of(samples) == magnitude(#[trigger] samples[i]),
    decreases samples.len(),
{
    if samples.len() > 0 {
        let front = samples.drop_last();
        law_peak_is_the_loudest_sample(front);
        let n = samples.len() - 1;
        assert forall|i: int| 0 <= i < samples.len() && !is_nan(#[trigger] samples[i]) implies
            magnitude(samples[i]) <= peak_of(samples) by {
            if i < n {
                assert(front[i] == samples[i]);
            }
        }
        if peak_of(samples) != ZERO {
            if peak_of(samples) == peak_of(front) {
                let i = choose|i: int|
                    0 <= i < front.len() && peak_of(front) == magnitude(#[trigger] front[i]);
                assert(samples[i] == front[i]);
            } else {
                assert(peak_of(samples) == magnitude(samples[n]));
            }
        }
    }
}

/// Limiting a value twice changes nothing more, and the limited value is a
/// number between zero and one.
pub proof fn law_unit_is_stable(x: u32)
    ensures
        unit_of(unit_of(x)) == unit_of(x),
        is_finite(unit_of(x)),
        0 <= place(unit_of(x)) <= place(ONE),
{
}

/// A value and its negative have the same absolute value, that of the one
/// without the sign.
pub proof fn law_the_sign_is_left_out(x: u32, negative: u32, a: u32, b: u32)
    requires
        x < 0x8000_0000,
        negative == x + 0x8000_0000,
        call_ensures(absolute, (x,), a),
        call_ensures(absolute, (negative,), b),
    ensures
        a == x && b == x,
{
}

/// Values are compared as numbers: of two without a sign the greater pattern is
/// the greater number, of two with one the smaller; what has a sign is never
/// greater than what has none; the two zeros are equal; and what is no number
/// is neither greater nor smaller.
pub proof fn law_patterns_are_compared_as_numbers(a: u32, b: u32, more: bool, less: bool)
    requires
        call_ensures(exceeds, (a, b), more),
        call_ensures(exceeds, (b, a), less),
    ensures
        !(more && less),
        a <= 0x7f80_0000 && b <= 0x7f80_0000 ==> (more <==> a > b),
        0x8000_0000 <= a <= 0xff80_0000 && 0x8000_0000 <= b <= 0xff80_0000 ==> (more <==> a < b),
        a <= 0x7f80_0000 && 0x8000_0000 <= b <= 0xff80_0000 ==> (more <==> a > 0 || b
            > 0x8000_0000) && !less,
        0x7f80_0000 < a < 0x8000_0000 || a > 0xff80_0000 ==> !more && !less,
{
}

/// Raising a level never lowers it, and leaves it at one of the two: at the new
/// one exactly where that is greater.
pub proof fn law_a_level_is_only_raised(
    current: u32,
    value: u32,
    more: bool,
    r: u32,
    replaced: Option<u32>,
    lowered: bool,
)
    requires
        call_ensures(exceeds, (value, current), more),
        call_ensures(raised, (current, value), r),
        call_ensures(raise_from, (current, value), replaced),
        call_ensures(exceeds, (current, r), lowered),
    ensures
        more ==> r == value && replaced == Some(value),
        !more ==> r == current && replaced is None,
        !lowered,
{
}

/// The peak of samples is the loudest of those that are numbers, whatever their
/// signs; a sample more never makes it less.
pub proof fn law_the_peak_is_that_of_the_loudest(samples: &[u32], r: u32, i: int)
    requires
        call_ensures(peak, (samples,), r),
        0 <= i < samples@.len(),
    ensures
        samples@[i] <= 0x7f80_0000 ==> samples@[i] <= r,
        0x8000_0000 <= samples@[i] <= 0xff80_0000 ==> samples@[i] - 0x8000_0000 <= r,
        r > 0 ==> exists|k: int|
            0 <= k < samples@.len() && (#[trigger] samples@[k] == r || samples@[k] == r
                + 0x8000_0000),
        r <= 0x7f80_0000,
{
    law_peak_is_the_loudest_sample(samples@);
    if r > 0 {
        let k = choose|k: int|
            0 <= k < samples@.len() && peak_of(samples@) == magnitude(#[trigger] samples@[k]);
        assert(samples@[k] == r || samples@[k] == r + 0x8000_0000);
    }
}

/// A value from zero to one is kept, what is greater or no number becomes one,
/// and what is below zero becomes zero.
pub proof fn law_a_value_is_kept_within_bounds(x: u32, r: u32)
    requires
        call_ensures(unit, (x,), r),
    ensures
        x <= 0x3f80_0000 ==> r == x,
        0x3f80_0000 < x < 0x8000_0000 ==> r == 0x3f80_0000,
        x == 0x8000_0000 ==> r == x,
        0x8000_0000 < x < 0xff80_0000 ==> r == 0,
        x >= 0xff80_0000 ==> r == 0x3f80_0000,
{
}

/// A gain of one leaves samples as they are, and so does one that lies between
/// one and another that does; those are all within a ten-thousandth of one.
pub proof fn law_only_a_gain_next_to_one_is_unity(x: u32, r: bool, y: u32, s: bool)
    requires
        call_ensures(unity, (x,), r),
        call_ensures(unity, (y,), s),
    ensures
        x == 0x3f80_0000 ==> r,
        r && x <= y <= 0x3f80_0000 ==> s,
        r && 0x3f80_0000 <= y <= x ==> s,
        r && x <= 0x3f80_0000 ==> (0x3f80_0000 - x) * 10_000 <= 0x100_0000,
        r && x >= 0x3f80_0000 ==> (x - 0x3f80_0000) * 10_000 <= 0x80_0000,
        x <= 0x3f80_0000 && (0x3f80_0000 - x) * 10_000 <= 0x100_0000 ==> r,
        0x3f80_0000 <= x && (x - 0x3f80_0000) * 10_000 <= 0x80_0000 ==> r,
{
}

} // verus!
