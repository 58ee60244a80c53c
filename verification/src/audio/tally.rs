//! Counting what goes wrong over and over, without a line in the log for each
//! time.

use vstd::arithmetic::power2::is_pow2;
use vstd::prelude::*;

verus! {

fn is_power_of_two(n: u64) -> (r: bool)
    ensures
        r == is_pow2(n as int),
    decreases n,
{
    reveal(is_pow2);
    if n == 0 {
        false
    } else if n == 1 {
        true
    } else if n % 2 == 0 {
        is_power_of_two(n / 2)
    } else {
        false
    }
}

/// A running count.
#[derive(Debug, Clone, Copy, PartialEq, Eq, Structural)]
pub struct Tally {
    pub total: u64,
}

impl Tally {
    pub fn new() -> (t: Self)
        ensures
            t.total == 0,
    {
        Tally { total: 0 }
    }

    /// Counts `n` more. Tells whether to say so in the log: the totals worth
    /// a line are the powers of two, so a lasting fault leaves a handful.
    pub fn note(&mut self, n: u64) -> (worth_a_line: bool)
        requires
            old(self).total + n <= u64::MAX,
        ensures
            final(self).total == old(self).total + n,
            worth_a_line == (n > 0 && is_pow2(old(self).total + n)),
    {
        if n == 0 {
            return false;
        }
        self.total = self.total + n;
        is_power_of_two(self.total)
    }
}

/// A tally counts what it is told. A total is told of at most once, and only
/// where it is a power of two.
pub proof fn law_a_tally_counts(
    tally: &mut Tally,
    n: u64,
    told: bool,
    next: &mut Tally,
    m: u64,
    again: bool,
)
    requires
        old(tally).total + n <= u64::MAX,
        final(tally).total + m <= u64::MAX,
        call_ensures(Tally::note, (tally, n), told),
        *old(next) == *final(tally),
        call_ensures(Tally::note, (next, m), again),
    ensures
        final(next).total == old(tally).total + n + m,
        again ==> final(next).total > final(tally).total,
        m == 0 ==> !again,
        n > 0 ==> (told <==> is_pow2(final(tally).total as int)),
{
}

/// A new tally has counted nothing.
pub proof fn law_a_new_tally_has_counted_nothing(tally: Tally)
    requires
        call_ensures(Tally::new, (), tally),
    ensures
        tally.total == 0,
{
}

} // verus!
