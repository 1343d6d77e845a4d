//! The countdown clock: remaining time in fixed frame ticks, with pause
//! semantics and the run-down laws of repeated ticking.

use vstd::prelude::*;

verus! {

/// Number of frame ticks per second; one tick is the fixed per-frame step.
pub const TICKS_PER_SEC: i64 = 60;

/// Largest starting duration, in whole seconds, whose tick count fits in an
/// `i64` (`i64::MAX / 60`, rounded down).
pub const MAX_START_SECONDS: u64 = 153_722_867_280_912_930;

/// The countdown state: remaining time and the pause flag.
///
/// `remaining` is measured in ticks of 1/60 s and may go slightly negative on
/// the finishing frame; the display layer clamps it to zero for presentation.
pub struct TimerClock {
    pub remaining: i64,
    pub paused: bool,
}

impl TimerClock {
    /// The remaining value after one `tick(dt)` call: the clock runs only
    /// while it is active and not paused.
    pub open spec fn spec_tick_remaining(r: int, paused: bool, dt: int) -> int {
        if r > 0 && !paused {
            r - dt
        } else {
            r
        }
    }

    /// Remaining value after `n` unpaused ticks of `dt` each.
    pub open spec fn spec_ticks(r: int, dt: int, n: nat) -> int
        decreases n,
    {
        if n == 0 {
            r
        } else {
            Self::spec_tick_remaining(Self::spec_ticks(r, dt, (n - 1) as nat), false, dt)
        }
    }

    /// The clock after one pause toggle: the flag flips only while active.
    pub open spec fn spec_toggled(self) -> TimerClock {
        TimerClock {
            paused: if self.remaining > 0 {
                !self.paused
            } else {
                self.paused
            },
            ..self
        }
    }

    pub open spec fn spec_is_active(self) -> bool {
        self.remaining > 0
    }

    /// A fresh, unpaused clock holding `seconds` whole seconds.
    pub fn new(seconds: u64) -> (c: TimerClock)
        requires
            seconds <= MAX_START_SECONDS,
        ensures
            c.remaining == seconds * TICKS_PER_SEC,
            !c.paused,
    {
        TimerClock { remaining: (seconds * 60) as i64, paused: false }
    }

    /// Advance the clock by `dt` ticks: the remaining time decreases exactly
    /// when the clock is active and not paused, and is untouched otherwise.
    pub fn tick(&mut self, dt: i64)
        requires
            dt > 0,
        ensures
            final(self).remaining == Self::spec_tick_remaining(
                old(self).remaining as int,
                old(self).paused,
                dt as int,
            ),
            final(self).paused == old(self).paused,
    {
        if self.remaining > 0 && !self.paused {
            self.remaining = self.remaining - dt;
        }
    }

    /// Flip the pause flag; a finished clock cannot be paused or resumed, and
    /// the remaining time is never touched.
    pub fn toggle_pause(&mut self)
        ensures
            *final(self) == old(self).spec_toggled(),
    {
        if self.remaining > 0 {
            self.paused = !self.paused;
        }
    }

    /// True exactly while some time remains.
    pub fn is_active(&self) -> (r: bool)
        ensures
            r == self.spec_is_active(),
    {
        self.remaining > 0
    }

    /// Whether the clock is paused.
    pub fn is_paused(&self) -> (r: bool)
        ensures
            r == self.paused,
    {
        self.paused
    }

    /// Remaining time in ticks, as stored (possibly slightly negative).
    pub fn remaining_ticks(&self) -> (r: i64)
        ensures
            r == self.remaining,
    {
        self.remaining
    }

    /// While the first `m` ticks all find the clock active, ticking is plain
    /// linear run-down: after `m` ticks of `dt` the remainder is `r - m * dt`.
    pub proof fn lemma_ticks_linear(r: int, dt: int, m: nat)
        requires
            dt > 0,
            m == 0 || r > (m - 1) * dt,
        ensures
            Self::spec_ticks(r, dt, m) == r - m * dt,
        decreases m,
    {
        if m > 0 {
            assert((m - 1) as int * dt == m * dt - dt) by (nonlinear_arith);
            if m >= 2 {
                assert((m - 2) as int * dt == (m - 1) as int * dt - dt) by (nonlinear_arith);
            }
            Self::lemma_ticks_linear(r, dt, (m - 1) as nat);
        }
    }

    /// Run-down law: from an active remainder `r`, exactly `ceil(r / dt)`
    /// ticks of `dt` drive the clock inactive, and every earlier prefix
    /// leaves it active.
    pub proof fn lemma_drains_in_ceil_ticks(r: int, dt: int)
        requires
            r > 0,
            dt > 0,
        ensures
            (r + dt - 1) / dt >= 1,
            Self::spec_ticks(r, dt, ((r + dt - 1) / dt) as nat) <= 0,
            forall|m: nat| m < (r + dt - 1) / dt ==> Self::spec_ticks(r, dt, m) > 0,
    {
        let n = (r + dt - 1) / dt;
        vstd::arithmetic::div_mod::lemma_fundamental_div_mod(r + dt - 1, dt);
        let rem = (r + dt - 1) % dt;
        assert(r + dt - 1 == dt * n + rem);
        assert(0 <= rem < dt) by {
            vstd::arithmetic::div_mod::lemma_mod_bound(r + dt - 1, dt);
        }
        assert(n * dt == dt * n) by (nonlinear_arith);
        assert(n * dt >= r);
        assert((n - 1) * dt == n * dt - dt) by (nonlinear_arith);
        assert((n - 1) * dt < r);
        assert(n >= 1) by {
            if n <= 0 {
                assert(n * dt <= 0) by (nonlinear_arith)
                    requires n <= 0 && dt > 0;
            }
        }
        Self::lemma_ticks_linear(r, dt, n as nat);
        assert forall|m: nat| m < n implies Self::spec_ticks(r, dt, m) > 0 by {
            assert(m as int * dt <= (n - 1) * dt) by (nonlinear_arith)
                requires m as int <= n - 1 && dt > 0;
            if m > 0 {
                assert((m - 1) as int * dt < m as int * dt) by (nonlinear_arith)
                    requires dt > 0 && m > 0;
            }
            Self::lemma_ticks_linear(r, dt, m);
        }
    }

    /// Once inactive, ticking never resurrects the clock: the remainder is
    /// frozen forever.
    pub proof fn lemma_finished_stays_finished(r: int, dt: int, n: nat)
        requires
            r <= 0,
        ensures
            Self::spec_ticks(r, dt, n) == r,
        decreases n,
    {
        if n > 0 {
            Self::lemma_finished_stays_finished(r, dt, (n - 1) as nat);
        }
    }

    /// Pausing halts the run-down: a paused tick leaves the remainder exactly
    /// where it was, so resuming continues from the paused value.
    pub proof fn lemma_pause_halts(c: TimerClock, dt: int)
        requires
            c.paused,
        ensures
            Self::spec_tick_remaining(c.remaining as int, c.paused, dt) == c.remaining,
    {
    }

    /// Toggling the pause flag twice restores the clock exactly.
    pub proof fn lemma_toggle_twice(c: TimerClock)
        ensures
            c.spec_toggled().spec_toggled() == c,
    {
    }
}

} // verus!
