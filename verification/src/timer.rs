//! Simulation clocks: a repeating cooldown timer and a one-shot countdown.
//! Every subsystem advances by the same externally supplied elapsed time, in
//! whole milliseconds, so a fixed tick sequence replays deterministically.

use vstd::prelude::*;

verus! {

/// Longest single tick the simulation accepts, in milliseconds.
pub const MAX_DT_MS: u64 = 60_000;

/// Longest timer period or countdown the simulation accepts, in milliseconds.
pub const MAX_PERIOD_MS: u64 = 3_600_000;

/// A repeating timer: accumulates elapsed time, finishes when a whole period
/// has passed, and wraps the overshoot into the next cycle.
#[derive(Clone, Copy, PartialEq, Eq, Structural, Debug)]
pub struct Timer {
    pub elapsed_ms: u64,
    pub period_ms: u64,
}

impl Timer {
    pub open spec fn wf(self) -> bool {
        &&& 1 <= self.period_ms <= MAX_PERIOD_MS
        &&& self.elapsed_ms < self.period_ms
    }

    /// The timer finishes somewhere inside a tick of `dt` milliseconds.
    pub open spec fn finishes(self, dt: int) -> bool {
        self.elapsed_ms + dt >= self.period_ms
    }

    /// The timer state after a tick of `dt` milliseconds.
    pub open spec fn after_tick(self, dt: int) -> Timer {
        (Timer {
            elapsed_ms: if self.finishes(dt) {
                ((self.elapsed_ms + dt) % (self.period_ms as int)) as u64
            } else {
                (self.elapsed_ms + dt) as u64
            },
            period_ms: self.period_ms,
        })
    }

    pub fn new(period_ms: u64) -> (t: Timer)
        requires
            1 <= period_ms <= MAX_PERIOD_MS,
        ensures
            t.wf(),
            t == (Timer { elapsed_ms: 0u64, period_ms }),
    {
        Timer { elapsed_ms: 0, period_ms }
    }

    /// Advance by `dt` milliseconds; reports whether the period elapsed
    /// during this tick.
    pub fn tick(&mut self, dt: u64) -> (finished: bool)
        requires
            old(self).wf(),
            dt <= MAX_DT_MS,
        ensures
            final(self).wf(),
            finished == old(self).finishes(dt as int),
            *final(self) == old(self).after_tick(dt as int),
    {
        let sum: u64 = self.elapsed_ms + dt;
        if sum >= self.period_ms {
            self.elapsed_ms = sum % self.period_ms;
            true
        } else {
            self.elapsed_ms = sum;
            false
        }
    }
}

/// A one-shot countdown: remaining time decreases to zero and stays there.
#[derive(Clone, Copy, PartialEq, Eq, Structural, Debug)]
pub struct Countdown {
    pub remaining_ms: u64,
}

impl Countdown {
    pub open spec fn wf(self) -> bool {
        self.remaining_ms <= MAX_PERIOD_MS
    }

    /// The countdown runs out inside a tick of `dt` milliseconds.
    pub open spec fn expires(self, dt: int) -> bool {
        dt >= self.remaining_ms
    }

    /// The countdown state after a tick of `dt` milliseconds.
    pub open spec fn after_tick(self, dt: int) -> Countdown {
        (Countdown {
            remaining_ms: if self.expires(dt) {
                0u64
            } else {
                (self.remaining_ms - dt) as u64
            },
        })
    }

    pub fn new(duration_ms: u64) -> (c: Countdown)
        requires
            duration_ms <= MAX_PERIOD_MS,
        ensures
            c.wf(),
            c == (Countdown { remaining_ms: duration_ms }),
    {
        Countdown { remaining_ms: duration_ms }
    }

    /// Advance by `dt` milliseconds; reports whether the countdown ran out
    /// during this tick.
    pub fn tick(&mut self, dt: u64) -> (expired: bool)
        requires
            old(self).wf(),
            dt <= MAX_DT_MS,
        ensures
            final(self).wf(),
            expired == old(self).expires(dt as int),
            *final(self) == old(self).after_tick(dt as int),
    {
        if dt >= self.remaining_ms {
            self.remaining_ms = 0;
            true
        } else {
            self.remaining_ms = self.remaining_ms - dt;
            false
        }
    }

    /// Clamp the remaining time down to at most `window_ms`; never lengthens.
    pub fn clamp_to(&mut self, window_ms: u64)
        requires
            old(self).wf(),
            window_ms <= MAX_PERIOD_MS,
        ensures
            final(self).wf(),
            final(self).remaining_ms == if old(self).remaining_ms <= window_ms {
                old(self).remaining_ms as int
            } else {
                window_ms as int
            },
    {
        if self.remaining_ms > window_ms {
            self.remaining_ms = window_ms;
        }
    }
}

} // verus!
