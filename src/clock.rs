//! Simulated time that moves only when asked to.

use vstd::prelude::*;

verus! {

/// Upper bound on simulated time, leaving headroom below `u64::MAX`.
pub const TIME_NS_MAX: u64 = u64::MAX - 1_000_000_000_000;

pub const NS_PER_US: u64 = 1_000;

pub const NS_PER_MS: u64 = 1_000_000;

/// Simulated clock with nanosecond precision.
///
/// Time never decreases except through `reset`; the model (`self@`) is the
/// current time in nanoseconds.
pub struct SimClock {
    now_ns: u64,
}

impl View for SimClock {
    type V = u64;

    closed spec fn view(&self) -> u64 {
        self.now_ns
    }
}

impl SimClock {
    /// A clock at time zero.
    pub fn new() -> (r: Self)
        ensures
            r@ == 0,
    {
        SimClock { now_ns: 0 }
    }

    /// A clock at `start_ns`, which must not exceed `TIME_NS_MAX`.
    pub fn with_start_time_ns(start_ns: u64) -> (r: Self)
        requires
            start_ns <= TIME_NS_MAX,
        ensures
            r@ == start_ns,
    {
        SimClock { now_ns: start_ns }
    }

    /// Current time in nanoseconds.
    pub fn now_ns(&self) -> (r: u64)
        ensures
            r == self@,
    {
        self.now_ns
    }

    /// Current time in whole microseconds.
    pub fn now_us(&self) -> (r: u64)
        ensures
            r == self@ / NS_PER_US,
    {
        self.now_ns / NS_PER_US
    }

    /// Current time in whole milliseconds.
    pub fn now_ms(&self) -> (r: u64)
        ensures
            r == self@ / NS_PER_MS,
    {
        self.now_ns / NS_PER_MS
    }

    /// Advance by `delta_ns > 0`; the result must stay within `TIME_NS_MAX`.
    pub fn advance_ns(&mut self, delta_ns: u64)
        requires
            delta_ns > 0,
            old(self)@ + delta_ns <= TIME_NS_MAX,
        ensures
            final(self)@ == old(self)@ + delta_ns,
    {
        self.now_ns = self.now_ns + delta_ns;
    }

    /// Advance by `delta_us > 0` microseconds.
    pub fn advance_us(&mut self, delta_us: u64)
        requires
            delta_us > 0,
            old(self)@ + delta_us * NS_PER_US <= TIME_NS_MAX,
        ensures
            final(self)@ == old(self)@ + delta_us * NS_PER_US,
    {
        self.advance_ns(delta_us * NS_PER_US);
    }

    /// Advance by `delta_ms > 0` milliseconds.
    pub fn advance_ms(&mut self, delta_ms: u64)
        requires
            delta_ms > 0,
            old(self)@ + delta_ms * NS_PER_MS <= TIME_NS_MAX,
        ensures
            final(self)@ == old(self)@ + delta_ms * NS_PER_MS,
    {
        self.advance_ns(delta_ms * NS_PER_MS);
    }

    /// Simulated sleep: a zero duration does nothing, any other advances the
    /// clock; it never blocks.
    pub fn sleep_ns(&mut self, duration_ns: u64)
        requires
            old(self)@ + duration_ns <= TIME_NS_MAX,
        ensures
            final(self)@ == old(self)@ + duration_ns,
    {
        if duration_ns > 0 {
            self.advance_ns(duration_ns);
        }
    }

    /// Simulated sleep in milliseconds.
    pub fn sleep_ms(&mut self, duration_ms: u64)
        requires
            old(self)@ + duration_ms * NS_PER_MS <= TIME_NS_MAX,
        ensures
            final(self)@ == old(self)@ + duration_ms * NS_PER_MS,
    {
        if duration_ms > 0 {
            self.advance_ms(duration_ms);
        }
    }

    /// Set the time back to zero.
    pub fn reset(&mut self)
        ensures
            final(self)@ == 0,
    {
        self.now_ns = 0;
    }
}

impl Default for SimClock {
    fn default() -> (r: Self)
        ensures
            r@ == 0,
    {
        SimClock::new()
    }
}

} // verus!
