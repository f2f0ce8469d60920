//! Integer-millisecond time values and the two clock shapes the wave
//! timeline needs: a free-running stopwatch and a one-shot countdown.

use vstd::prelude::*;

verus! {

/// Saturating addition on 64-bit millisecond counts.
pub open spec fn sat_add(a: u64, b: u64) -> u64 {
    if a + b > u64::MAX {
        u64::MAX
    } else {
        (a + b) as u64
    }
}

/// Saturating subtraction on 64-bit millisecond counts.
pub open spec fn sat_sub(a: u64, b: u64) -> u64 {
    if a >= b {
        (a - b) as u64
    } else {
        0
    }
}

/// A non-negative time value with millisecond resolution.
///
/// All relative scheduling in the crate uses this type, so that timing
/// data is exact and totally ordered rather than floating point.
#[derive(Clone, Copy, Debug, Hash, PartialEq, Eq, Structural)]
pub struct Millis(pub u64);

impl From<u128> for Millis {
    /// Converts a raw millisecond count, saturating at the largest
    /// representable value rather than overflowing.
    fn from(millis: u128) -> (r: Millis)
        ensures
            r.0 == if millis > u64::MAX { u64::MAX } else { millis as u64 },
    {
        if millis > u64::MAX as u128 {
            Millis(u64::MAX)
        } else {
            Millis(millis as u64)
        }
    }
}

impl vstd::std_specs::convert::FromSpecImpl<u128> for Millis {
    open spec fn obeys_from_spec() -> bool {
        true
    }

    open spec fn from_spec(millis: u128) -> Millis {
        if millis > u64::MAX {
            Millis(u64::MAX)
        } else {
            Millis(millis as u64)
        }
    }
}

/// A free-running elapsed clock, advanced once per simulation tick.
#[derive(Clone, Copy, Debug, PartialEq, Eq, Structural)]
pub struct Stopwatch {
    pub elapsed: Millis,
}

impl Stopwatch {
    /// A stopwatch that has not run yet.
    pub fn new() -> (r: Stopwatch)
        ensures
            r.elapsed.0 == 0,
    {
        Stopwatch { elapsed: Millis(0) }
    }

    /// Advances the clock, saturating instead of overflowing.
    pub fn tick(&mut self, delta: Millis)
        ensures
            final(self).elapsed.0 == sat_add(old(self).elapsed.0, delta.0),
    {
        if delta.0 > u64::MAX - self.elapsed.0 {
            self.elapsed = Millis(u64::MAX);
        } else {
            self.elapsed = Millis(self.elapsed.0 + delta.0);
        }
    }

    /// Rewinds the clock to zero.
    pub fn reset(&mut self)
        ensures
            final(self).elapsed.0 == 0,
    {
        self.elapsed = Millis(0);
    }

    /// The time this clock has run for.
    pub fn elapsed(&self) -> (r: Millis)
        ensures
            r == self.elapsed,
    {
        self.elapsed
    }
}

/// A one-shot countdown; it is finished exactly when no time remains.
#[derive(Clone, Copy, Debug, PartialEq, Eq, Structural)]
pub struct Countdown {
    pub remaining: Millis,
}

impl Countdown {
    /// Arms the countdown with the given duration. A zero duration is
    /// finished from the start.
    pub fn new(duration: Millis) -> (r: Countdown)
        ensures
            r.remaining == duration,
    {
        Countdown { remaining: duration }
    }

    /// Runs the countdown forward, stopping at zero.
    pub fn tick(&mut self, delta: Millis)
        ensures
            final(self).remaining.0 == sat_sub(old(self).remaining.0, delta.0),
    {
        if self.remaining.0 >= delta.0 {
            self.remaining = Millis(self.remaining.0 - delta.0);
        } else {
            self.remaining = Millis(0);
        }
    }

    /// Whether the countdown has run out.
    pub fn finished(&self) -> (r: bool)
        ensures
            r == (self.remaining.0 == 0),
    {
        self.remaining.0 == 0
    }

    /// The time left before the countdown runs out.
    pub fn remaining(&self) -> (r: Millis)
        ensures
            r == self.remaining,
    {
        self.remaining
    }
}

} // verus!
