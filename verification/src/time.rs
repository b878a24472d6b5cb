//! Spans of time.

use vstd::prelude::*;

verus! {

/// A span of time, to the nanosecond.
#[derive(Debug, Clone, Copy, PartialEq, Eq, Structural)]
pub struct Duration {
    pub secs: u64,
    /// Always less than a second.
    pub nanos: u32,
}

impl Duration {
    /// The part below a second is less than a second.
    pub open spec fn wf(self) -> bool {
        self.nanos < 1_000_000_000
    }

    /// The whole milliseconds of the span.
    pub open spec fn millis(self) -> nat {
        (self.secs * 1000 + self.nanos / 1_000_000) as nat
    }

    /// The span of that many milliseconds.
    pub fn from_millis(ms: u64) -> (d: Duration)
        ensures
            d.wf(),
            d.millis() == ms,
            d.nanos % 1_000_000 == 0,
    {
        Duration { secs: ms / 1000, nanos: (ms % 1000) as u32 * 1_000_000 }
    }

    /// The whole milliseconds of the span.
    pub fn as_millis(&self) -> (ms: u128)
        ensures
            ms == self.millis(),
    {
        self.secs as u128 * 1000 + (self.nanos / 1_000_000) as u128
    }
}

/// The milliseconds of a span are the last whole ones within it.
pub proof fn law_millis_are_whole(d: Duration)
    ensures
        d.millis() * 1_000_000 <= d.secs * 1_000_000_000 + d.nanos < (d.millis() + 1) * 1_000_000,
{
}

} // verus!
