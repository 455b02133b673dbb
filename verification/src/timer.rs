//! Countdown and repeating timers, advanced once per simulation tick.
//!
//! All durations are in milliseconds. A once-timer clamps its elapsed time
//! at its duration; a repeating timer wraps and reports each completion.
use vstd::prelude::*;

verus! {

/// A countdown that runs once: elapsed time accumulates up to the
/// duration and then stays there.
#[derive(Clone, Copy, PartialEq, Eq, Structural, Debug)]
pub struct TickTimer {
    pub elapsed_ms: u64,
    pub duration_ms: u64,
}

impl TickTimer {
    /// A fresh timer that will finish after `duration_ms`.
    pub fn new(duration_ms: u64) -> (t: TickTimer)
        ensures
            t.elapsed_ms == 0,
            t.duration_ms == duration_ms,
    {
        TickTimer { elapsed_ms: 0, duration_ms }
    }

    /// True once the whole duration has elapsed.
    pub open spec fn spec_finished(self) -> bool {
        self.elapsed_ms >= self.duration_ms
    }

    /// Milliseconds left before the timer finishes.
    pub open spec fn spec_remaining(self) -> int {
        if self.spec_finished() { 0 } else { self.duration_ms - self.elapsed_ms }
    }

    /// The timer after one tick, as a value.
    pub open spec fn spec_tick(self, dt_ms: u64) -> TickTimer {
        TickTimer {
            elapsed_ms: if self.spec_finished() {
                self.elapsed_ms
            } else if self.elapsed_ms + dt_ms <= self.duration_ms {
                (self.elapsed_ms + dt_ms) as u64
            } else {
                self.duration_ms
            },
            duration_ms: self.duration_ms,
        }
    }

    /// Advance by one tick, clamping at the duration.
    pub fn tick(&mut self, dt_ms: u64)
        ensures
            *final(self) == old(self).spec_tick(dt_ms),
    {
        if self.elapsed_ms < self.duration_ms {
            if dt_ms < self.duration_ms - self.elapsed_ms {
                self.elapsed_ms = self.elapsed_ms + dt_ms;
            } else {
                self.elapsed_ms = self.duration_ms;
            }
        }
    }

    /// True once the whole duration has elapsed.
    pub fn finished(&self) -> (r: bool)
        ensures
            r == self.spec_finished(),
    {
        self.elapsed_ms >= self.duration_ms
    }

    /// Milliseconds left before the timer finishes.
    pub fn remaining_ms(&self) -> (r: u64)
        ensures
            r == self.spec_remaining(),
    {
        if self.elapsed_ms >= self.duration_ms {
            0
        } else {
            self.duration_ms - self.elapsed_ms
        }
    }
}

/// A timer that fires repeatedly: each time the accumulated time reaches
/// the period, it wraps and reports a completion.
#[derive(Clone, Copy, PartialEq, Eq, Structural, Debug)]
pub struct RepeatingTimer {
    pub elapsed_ms: u64,
    pub period_ms: u64,
}

impl RepeatingTimer {
    /// A fresh repeating timer with the given period.
    pub fn new(period_ms: u64) -> (t: RepeatingTimer)
        requires
            period_ms > 0,
        ensures
            t.elapsed_ms == 0,
            t.period_ms == period_ms,
    {
        RepeatingTimer { elapsed_ms: 0, period_ms }
    }

    /// Advance by one tick; returns true when the period completed, in
    /// which case the remainder is carried into the next cycle.
    pub fn tick(&mut self, dt_ms: u64) -> (fired: bool)
        requires
            old(self).period_ms > 0,
            old(self).elapsed_ms < old(self).period_ms,
            old(self).elapsed_ms + dt_ms <= u64::MAX,
        ensures
            final(self).period_ms == old(self).period_ms,
            fired == (old(self).elapsed_ms + dt_ms >= old(self).period_ms),
            final(self).elapsed_ms
                == (old(self).elapsed_ms + dt_ms) as int % old(self).period_ms as int,
    {
        let total = self.elapsed_ms + dt_ms;
        if total >= self.period_ms {
            self.elapsed_ms = total % self.period_ms;
            true
        } else {
            proof {
                vstd::arithmetic::div_mod::lemma_small_mod(total as nat, self.period_ms as nat);
            }
            self.elapsed_ms = total;
            false
        }
    }
}

/// Minutes shown on a mm:ss countdown display.
pub open spec fn spec_display_minutes(remaining_ms: u64) -> int {
    remaining_ms as int / 60000
}

/// Seconds shown on a mm:ss countdown display.
pub open spec fn spec_display_seconds(remaining_ms: u64) -> int {
    (remaining_ms as int % 60000) / 1000
}

/// Split the remaining time into the minutes and seconds of a mm:ss
/// display (both truncated, seconds always below 60).
pub fn display_time(remaining_ms: u64) -> (r: (u64, u64))
    ensures
        r.0 == spec_display_minutes(remaining_ms),
        r.1 == spec_display_seconds(remaining_ms),
        r.1 < 60,
{
    let minutes = remaining_ms / 60000;
    let seconds = (remaining_ms % 60000) / 1000;
    (minutes, seconds)
}

/// The countdown text flashes red on even seconds once less than thirty
/// seconds remain.
pub fn display_red(remaining_ms: u64) -> (red: bool)
    ensures
        red == (remaining_ms < 30000 && spec_display_seconds(remaining_ms) % 2 == 0),
{
    let seconds = (remaining_ms % 60000) / 1000;
    remaining_ms < 30000 && seconds % 2 == 0
}

} // verus!
