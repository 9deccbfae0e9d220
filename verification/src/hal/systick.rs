//! The SysTick countdown: the decision half of a tick wait.
//!
//! Waiting some number of timer periods polls the hardware wrap flag and
//! counts the observed wraps.  The polling belongs to the consumer, which
//! owns the timer; the counting is here, with its exact contract.

use vstd::prelude::*;

verus! {

/// A wait for some number of timer wraps.
pub struct SystickWait {
    pub remaining: u32,
}

impl SystickWait {
    /// A wait for `ticks` wraps.
    pub fn new(ticks: u32) -> (r: SystickWait)
        ensures
            r.remaining == ticks,
    {
        SystickWait { remaining: ticks }
    }

    /// One poll of the wrap flag: an observed wrap consumes one tick, and
    /// the wait is done exactly when none remain.
    pub fn tick(&mut self, wrapped: bool) -> (done: bool)
        ensures
            final(self).remaining == (if wrapped && old(self).remaining > 0 {
                (old(self).remaining - 1) as u32
            } else {
                old(self).remaining
            }),
            done == (final(self).remaining == 0),
    {
        if wrapped && self.remaining > 0 {
            self.remaining = self.remaining - 1;
        }
        self.remaining == 0
    }
}

} // verus!
