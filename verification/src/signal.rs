//! The completion signal: a one-shot flash/notify trigger on the first
//! inactive frame, then a 1 Hz half-duty blink cadence for the finished
//! display.

use vstd::prelude::*;

verus! {

/// Ticks of the blink phase that make one whole second.
pub const BLINK_PERIOD: u64 = 60;

/// Ticks of each period during which the finished text is visible.
pub const BLINK_VISIBLE: u64 = 30;

/// Tracks the one-shot running-to-finished transition and the blink phase
/// accumulated after it.
pub struct CompletionSignaler {
    pub fired: bool,
    pub blink_ticks: u64,
}

impl CompletionSignaler {
    /// The signaler after one evaluation with activity flag `active`: an
    /// inactive frame fires the one-shot (idempotently) and accumulates the
    /// blink phase; an active frame changes nothing.  The phase saturates at
    /// `u64::MAX` rather than wrap.
    pub open spec fn spec_evaluated(self, active: bool, dt: u64) -> CompletionSignaler {
        if active {
            self
        } else {
            CompletionSignaler {
                fired: true,
                blink_ticks: if self.blink_ticks + dt > u64::MAX {
                    u64::MAX
                } else {
                    (self.blink_ticks + dt) as u64
                },
            }
        }
    }

    /// Whether one evaluation with flag `active` fires the side effects.
    pub open spec fn spec_fires(self, active: bool) -> bool {
        !active && !self.fired
    }

    /// How many of `n` consecutive inactive evaluations fire the side
    /// effects.
    pub open spec fn spec_fire_count(self, dt: u64, n: nat) -> nat
        decreases n,
    {
        if n == 0 {
            0
        } else {
            (if self.spec_fires(false) {
                1nat
            } else {
                0nat
            }) + self.spec_evaluated(false, dt).spec_fire_count(dt, (n - 1) as nat)
        }
    }

    /// A fresh signaler: not fired, no blink phase.
    pub fn new() -> (s: CompletionSignaler)
        ensures
            !s.fired,
            s.blink_ticks == 0,
    {
        CompletionSignaler { fired: false, blink_ticks: 0 }
    }

    /// One per-frame evaluation.  Returns true exactly when the caller must
    /// perform the one-time flash and notification side effects.
    pub fn evaluate(&mut self, active: bool, dt: u64) -> (fire: bool)
        ensures
            fire == old(self).spec_fires(active),
            *final(self) == old(self).spec_evaluated(active, dt),
    {
        if active {
            false
        } else {
            let fire = !self.fired;
            self.fired = true;
            if dt > u64::MAX - self.blink_ticks {
                self.blink_ticks = u64::MAX;
            } else {
                self.blink_ticks = self.blink_ticks + dt;
            }
            fire
        }
    }

    /// Whether the finished text is visible this frame: the first half of
    /// each one-second blink period.
    pub fn visible(&self) -> (r: bool)
        ensures
            r == (self.blink_ticks % BLINK_PERIOD < BLINK_VISIBLE),
    {
        self.blink_ticks % BLINK_PERIOD < BLINK_VISIBLE
    }

    /// One-shot law: over any number of consecutive inactive frames, the side
    /// effects fire exactly once if the signaler was still armed, and never
    /// again once it has fired.
    pub proof fn lemma_fires_exactly_once(s: CompletionSignaler, dt: u64, n: nat)
        ensures
            s.spec_fire_count(dt, n) == if s.fired || n == 0 {
                0nat
            } else {
                1nat
            },
        decreases n,
    {
        if n > 0 {
            Self::lemma_fires_exactly_once(s.spec_evaluated(false, dt), dt, (n - 1) as nat);
        }
    }
}

} // verus!
