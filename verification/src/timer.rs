//! A repeating countdown timer over integer ticks.
//!
//! The timer tracks the elapsed ticks within the current period. Advancing it
//! reports whether a period boundary was crossed during the advance; the
//! elapsed time then wraps modulo the period, so at most one completion edge
//! is reported per advance however large the step was.

use crate::PERIOD_LIMIT;
use vstd::prelude::*;

verus! {

/// A repeating timer with a fixed period, both in ticks.
#[derive(Clone, Copy, Debug, PartialEq, Eq, Structural)]
pub struct RepeatingTimer {
    pub elapsed: u64,
    pub period: u64,
}

impl RepeatingTimer {
    /// A timer is well formed when its period is positive and in range and
    /// its elapsed time lies strictly within the current period.
    pub open spec fn wf(self) -> bool {
        &&& 0 < self.period <= PERIOD_LIMIT
        &&& self.elapsed < self.period
    }

    /// A fresh timer at the start of its first period.
    pub fn new(period: u64) -> (t: RepeatingTimer)
        requires
            0 < period <= PERIOD_LIMIT,
        ensures
            t.wf(),
            t.period == period,
            t.elapsed == 0,
    {
        RepeatingTimer { elapsed: 0, period }
    }

    /// Advances the timer by `dt` ticks. Returns whether the advance crossed
    /// the end of the current period ("just finished"); the elapsed time
    /// wraps modulo the period, so one call reports at most one completion.
    pub fn tick(&mut self, dt: u64) -> (just_finished: bool)
        requires
            old(self).wf(),
        ensures
            final(self).wf(),
            final(self).period == old(self).period,
            just_finished == (old(self).elapsed + dt >= old(self).period),
            final(self).elapsed == (old(self).elapsed + dt) % (old(self).period as int),
    {
        let total: u128 = self.elapsed as u128 + dt as u128;
        let period: u128 = self.period as u128;
        if total >= period {
            let rem: u128 = total % period;
            proof {
                vstd::arithmetic::div_mod::lemma_mod_division_less_than_divisor(
                    total as int,
                    period as int,
                );
            }
            self.elapsed = rem as u64;
            true
        } else {
            proof {
                vstd::arithmetic::div_mod::lemma_small_mod(total as nat, period as nat);
            }
            self.elapsed = total as u64;
            false
        }
    }
}

} // verus!
