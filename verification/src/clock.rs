//! Time, as nanoseconds on a clock that only runs forward.
use vstd::prelude::*;

verus! {

/// Whole seconds from `since` to `now`; none where `since` is the later.
pub open spec fn spec_elapsed_secs(now: u64, since: u64) -> int {
    if now >= since {
        (now - since) / 1_000_000_000
    } else {
        0
    }
}

/// Whole milliseconds from `since` to `now`; none where `since` is the later.
pub open spec fn spec_elapsed_millis(now: u64, since: u64) -> int {
    if now >= since {
        (now - since) / 1_000_000
    } else {
        0
    }
}

pub fn elapsed_secs(now: u64, since: u64) -> (r: u64)
    ensures
        r == spec_elapsed_secs(now, since),
{
    if now >= since {
        (now - since) / 1_000_000_000
    } else {
        0
    }
}

pub fn elapsed_millis(now: u64, since: u64) -> (r: u64)
    ensures
        r == spec_elapsed_millis(now, since),
{
    if now >= since {
        (now - since) / 1_000_000
    } else {
        0
    }
}

/// A moment, on two clocks.
#[derive(Clone, Copy, Debug, PartialEq, Eq, Structural)]
pub struct Now {
    /// Nanoseconds on a clock that only runs forward.
    pub mono: u64,
    /// Nanoseconds since 1970 on the calendar's clock.
    pub wall: u64,
}

impl Now {
    /// The calendar's clock is a minute past its start, so that a token's leeway can be taken off.
    pub open spec fn wf(self) -> bool {
        self.wall >= 60_000_000_000
    }

    /// Whole seconds since 1970.
    pub open spec fn spec_unix_secs(self) -> u64 {
        (self.wall / 1_000_000_000) as u64
    }

    pub fn unix_secs(&self) -> (r: u64)
        ensures
            r == self.spec_unix_secs(),
            self.wf() ==> r >= 60,
    {
        self.wall / 1_000_000_000
    }
}

/// Time is told in whole units, rounded down; and none has gone by since a moment that is yet to
/// come.
pub proof fn law_elapsed_time_is_rounded_down(now: u64, since: u64)
    ensures
        now >= since ==> spec_elapsed_secs(now, since) * 1_000_000_000 <= now - since < (
        spec_elapsed_secs(now, since) + 1) * 1_000_000_000,
        now >= since ==> spec_elapsed_millis(now, since) * 1_000_000 <= now - since < (
        spec_elapsed_millis(now, since) + 1) * 1_000_000,
        now < since ==> spec_elapsed_secs(now, since) == 0 && spec_elapsed_millis(now, since) == 0,
{
}

/// The calendar's time is told in whole seconds, rounded down.
pub proof fn law_calendar_time_is_rounded_down(now: Now)
    ensures
        now.spec_unix_secs() * 1_000_000_000 <= now.wall < (now.spec_unix_secs() + 1)
            * 1_000_000_000,
{
}

} // verus!
