//! When to look for a new version, and what the splash window shows.
//!
//! Every launch checks before anything else starts. A new version is
//! installed and the app restarts into it. Without one, or without network,
//! the app starts, and checks again while it runs.

use vstd::prelude::*;

verus! {

/// Milliseconds between two checks.
pub const CHECK_EVERY_MS: u64 = 21_600_000;

/// Milliseconds until a check that failed is tried again.
pub const RETRY_AFTER_MS: u64 = 300_000;

/// No network at login must not hold the app for long.
pub const CHECK_TIMEOUT_MS: u64 = 8_000;

pub const DOWNLOAD_TIMEOUT_MS: u64 = 300_000;

/// Keeps the splash from flashing when the check is instant.
pub const SPLASH_MIN_MS: u64 = 700;

#[derive(Debug, Clone, Copy, PartialEq, Eq, Structural)]
pub enum Stage {
    Checking,
    Downloading,
    Installing,
    Restarting,
}

impl Default for Stage {
    fn default() -> (r: Self)
        ensures
            r == Stage::Checking,
    {
        Stage::Checking
    }
}

/// What the splash window shows.
#[derive(Debug, Clone, Copy, PartialEq, Eq, Structural)]
pub struct Progress {
    pub stage: Stage,
    /// Download progress, when the size is known.
    pub percent: Option<u8>,
}

impl Default for Progress {
    fn default() -> (r: Self)
        ensures
            r == (Progress { stage: Stage::Checking, percent: None }),
    {
        Progress { stage: Stage::Checking, percent: None }
    }
}

/// Development builds never replace themselves and start right away.
pub fn enabled(debug: bool) -> (r: bool)
    ensures
        r == !debug,
{
    !debug
}

/// The share of a download that has arrived, in whole percent and at most a
/// hundred. None while the size is not known.
pub open spec fn share(received: nat, total: Option<u64>) -> Option<u8> {
    match total {
        Some(t) => if t == 0 {
            None
        } else if received * 100 / t as nat >= 100 {
            Some(100)
        } else {
            Some((received * 100 / t as nat) as u8)
        },
        None => None,
    }
}

/// What the splash shows of a download.
pub fn downloading(received: u64, total: Option<u64>) -> (r: Progress)
    requires
        received * 100 <= u64::MAX,
    ensures
        r == (Progress { stage: Stage::Downloading, percent: share(received as nat, total) }),
{
    let percent = match total {
        Some(t) => if t > 0 {
            let p: u64 = received * 100 / t;
            if p >= 100 {
                Some(100u8)
            } else {
                Some(p as u8)
            }
        } else {
            None
        },
        None => None,
    };
    Progress { stage: Stage::Downloading, percent }
}

/// A download's share never goes back, and is complete only once everything
/// is there.
pub proof fn law_progress_only_grows(before: nat, after: nat, total: u64)
    requires
        before <= after,
        total > 0,
    ensures
        share(before, Some(total)) matches Some(p) && share(after, Some(total)) matches Some(q) && p
            <= q <= 100,
        share(after, Some(total)) == Some(100u8) <==> after >= total,
{
    let t = total as nat;
    assert(before * 100 / t <= after * 100 / t) by (nonlinear_arith)
        requires
            before <= after,
            t > 0,
    ;
    assert(after * 100 / t >= 100 <==> after >= t) by (nonlinear_arith)
        requires
            t > 0,
    ;
}

/// How a check came out.
#[derive(Debug, Clone, Copy, PartialEq, Eq, Structural)]
pub enum Check {
    /// A new version was installed.
    Installed,
    UpToDate,
    Failed,
}

/// What follows a check.
#[derive(Debug, Clone, Copy, PartialEq, Eq, Structural)]
pub enum AfterCheck {
    /// There is nothing more to check until the app restarts.
    Done,
    /// Check again after so many milliseconds.
    Wait(u64),
}

/// Plans the next check.
pub fn after_check(check: Check) -> (r: AfterCheck)
    ensures
        r == (match check {
            Check::Installed => AfterCheck::Done,
            Check::UpToDate => AfterCheck::Wait(CHECK_EVERY_MS),
            Check::Failed => AfterCheck::Wait(RETRY_AFTER_MS),
        }),
{
    match check {
        Check::Installed => AfterCheck::Done,
        Check::UpToDate => AfterCheck::Wait(CHECK_EVERY_MS),
        Check::Failed => AfterCheck::Wait(RETRY_AFTER_MS),
    }
}

/// How much longer the splash stays, after it was shown for `shown`
/// milliseconds. None where it was long enough.
pub fn splash_rest(shown: u64) -> (r: Option<u64>)
    ensures
        r == if shown <= SPLASH_MIN_MS {
            Some((SPLASH_MIN_MS - shown) as u64)
        } else {
            None
        },
{
    if shown <= SPLASH_MIN_MS {
        Some(SPLASH_MIN_MS - shown)
    } else {
        None
    }
}

/// The share that is shown of a download is what has arrived of it, in whole
/// percent; nothing is shown where the size is not known, and no more than a
/// hundred where more arrives than was told.
pub proof fn law_the_share_is_what_has_arrived(
    received: u64,
    total: Option<u64>,
    r: Progress,
    later: u64,
    s: Progress,
)
    requires
        received <= later,
        call_ensures(downloading, (received, total), r),
        call_ensures(downloading, (later, total), s),
    ensures
        r.stage is Downloading,
        r.percent is None <==> total is None || total->0 == 0,
        r.percent matches Some(p) ==> {
            &&& p <= 100
            &&& received < total->0 ==> p * total->0 <= received * 100 < (p + 1) * total->0
            &&& received >= total->0 ==> p == 100
            &&& s.percent matches Some(q) && q >= p
        },
{
    if let Some(t) = total {
        if t > 0 {
            law_progress_only_grows(received as nat, later as nat, t);
            law_progress_only_grows(received as nat, received as nat, t);
            let n = received as nat * 100;
            let d = t as nat;
            assert(n / d * d <= n < (n / d + 1) * d) by (nonlinear_arith)
                requires
                    d > 0,
            ;
        }
    }
}

/// After an install nothing is checked until the restart; else the next check
/// comes in six hours, or in five minutes where this one failed.
pub proof fn law_the_next_check_comes_in_time(check: Check, r: AfterCheck)
    requires
        call_ensures(after_check, (check,), r),
    ensures
        r is Done <==> check is Installed,
        check is UpToDate ==> (r matches AfterCheck::Wait(ms) && ms == 6 * 60 * 60 * 1000),
        check is Failed ==> (r matches AfterCheck::Wait(ms) && ms == 5 * 60 * 1000),
        CHECK_TIMEOUT_MS == 8_000,
        DOWNLOAD_TIMEOUT_MS == 5 * 60 * 1000,
{
}

/// The splash is shown for seven tenths of a second at least, and no longer
/// than it has to be; a development build shows none.
pub proof fn law_the_splash_is_shown_long_enough(
    shown: u64,
    r: Option<u64>,
    debug: bool,
    on: bool,
)
    requires
        call_ensures(splash_rest, (shown,), r),
        call_ensures(enabled, (debug,), on),
    ensures
        r is None <==> shown > 700,
        r matches Some(rest) ==> shown + rest == 700,
        on <==> !debug,
{
}

/// The splash begins with the check.
pub proof fn law_the_splash_begins_with_the_check(stage: Stage, progress: Progress)
    requires
        call_ensures(Stage::default, (), stage),
        call_ensures(Progress::default, (), progress),
    ensures
        stage is Checking,
        progress.stage is Checking && progress.percent is None,
{
}

} // verus!
