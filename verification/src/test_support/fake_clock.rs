//! A fake clock that only moves when told to.

use vstd::prelude::*;

verus! {

/// A clock in milliseconds since an arbitrary epoch.
#[derive(Debug)]
pub struct FakeClock {
    now_ms: u64,
}

impl FakeClock {
    /// The current fake time.
    pub closed spec fn time(&self) -> u64 {
        self.now_ms
    }

    /// A clock at `start_ms`.
    pub fn new(start_ms: u64) -> (r: Self)
        ensures
            r.time() == start_ms,
    {
        FakeClock { now_ms: start_ms }
    }

    /// The current fake time.
    pub fn now_ms(&self) -> (r: u64)
        ensures
            r == self.time(),
    {
        self.now_ms
    }

    /// Move the clock forward by `delta_ms` and give the new time.
    pub fn advance(&mut self, delta_ms: u64) -> (r: u64)
        requires
            old(self).time() + delta_ms <= u64::MAX,
        ensures
            r == old(self).time() + delta_ms,
            final(self).time() == r,
    {
        self.now_ms = self.now_ms + delta_ms;
        self.now_ms
    }

    /// The time after `steps` steps of `step_ms` (moving the clock there).
    pub fn after(&mut self, steps: u64, step_ms: u64) -> (r: u64)
        requires
            steps * step_ms <= u64::MAX,
            old(self).time() + steps * step_ms <= u64::MAX,
        ensures
            r == old(self).time() + steps * step_ms,
            final(self).time() == r,
    {
        let d = steps * step_ms;
        self.advance(d)
    }
}

impl Default for FakeClock {
    /// A clock at time 0.
    fn default() -> (r: Self)
        ensures
            r.time() == 0,
    {
        FakeClock::new(0)
    }
}

/// The clock never goes backwards: each advance gives a time no earlier
/// than the one before.
pub proof fn advance_is_monotonic(before: u64, delta: u64)
    requires
        before + delta <= u64::MAX,
    ensures
        before <= before + delta,
{
}

} // verus!
