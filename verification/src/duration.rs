//! Spans of time as plain values.

use vstd::prelude::*;

verus! {

/// A span of time.
#[derive(Debug, Clone, Copy, PartialEq, Eq, Structural)]
pub struct Duration {
    /// Its length in nanoseconds.
    pub nanos: u128,
}

impl Duration {
    /// A whole number of seconds.
    pub fn from_secs(secs: u64) -> (r: Self)
        ensures
            r.nanos == secs * 1_000_000_000,
    {
        Duration { nanos: secs as u128 * 1_000_000_000 }
    }

    /// A whole number of milliseconds.
    pub fn from_millis(millis: u64) -> (r: Self)
        ensures
            r.nanos == millis * 1_000_000,
    {
        Duration { nanos: millis as u128 * 1_000_000 }
    }

    /// The whole seconds of the span.
    pub open spec fn spec_as_secs(self) -> int {
        self.nanos as int / 1_000_000_000
    }

    /// The whole seconds of the span.
    pub fn as_secs(&self) -> (r: u64)
        requires
            self.spec_as_secs() <= u64::MAX,
        ensures
            r == self.spec_as_secs(),
    {
        (self.nanos / 1_000_000_000) as u64
    }

    /// Whether the span is empty.
    pub fn is_zero(&self) -> (r: bool)
        ensures
            r == (self.nanos == 0),
    {
        self.nanos == 0
    }

    /// Twice the span, but no more than `limit`.
    pub fn doubled_within(&self, limit: Duration) -> (r: Self)
        ensures
            r.nanos == if 2 * self.nanos <= limit.nanos {
                2 * self.nanos
            } else {
                limit.nanos as int
            },
    {
        if self.nanos <= limit.nanos / 2 {
            Duration { nanos: self.nanos * 2 }
        } else {
            limit
        }
    }
}

/// The whole seconds of a span are the most that fit into it.
pub proof fn lemma_whole_seconds_fit(d: Duration)
    ensures
        d.spec_as_secs() * 1_000_000_000 <= d.nanos < (d.spec_as_secs() + 1) * 1_000_000_000,
{
}

/// Seconds and milliseconds are what they say, and a span of whole seconds has as many.
pub proof fn lemma_units(secs: u64, millis: u64, a: Duration, b: Duration, c: u64)
    requires
        call_ensures(Duration::from_secs, (secs,), a),
        call_ensures(Duration::from_millis, (millis,), b),
        call_ensures(Duration::as_secs, (&a,), c),
    ensures
        c == secs,
        millis == 1000 * secs ==> a == b,
        b.nanos == 1_000_000 * millis,
{
}

} // verus!
