use vstd::prelude::*;

verus! {

/// The number of nanoseconds in one second.
pub const NANOS_PER_SEC: u32 = 1_000_000_000;

/// A nonnegative span of time: whole seconds and the nanoseconds beyond them.
#[derive(Clone, Copy, Debug, PartialEq, Eq, Structural)]
pub struct TimeSpan {
    pub secs: u64,
    pub nanos: u32,
}

impl TimeSpan {
    /// A span is well formed when its nanoseconds stay below one second.
    pub open spec fn wf(self) -> bool {
        self.nanos < NANOS_PER_SEC
    }

    /// The span as a count of nanoseconds.
    pub open spec fn total_nanos(self) -> nat {
        (self.secs * NANOS_PER_SEC + self.nanos) as nat
    }

    /// The span of `count` nanoseconds.
    pub open spec fn of_nanos(count: nat) -> TimeSpan {
        TimeSpan {
            secs: (count / (NANOS_PER_SEC as nat)) as u64,
            nanos: (count % (NANOS_PER_SEC as nat)) as u32,
        }
    }

    /// What is left of this span once `elapsed` has passed: nothing once
    /// `elapsed` has reached it.
    pub open spec fn minus(self, elapsed: TimeSpan) -> TimeSpan {
        if elapsed.total_nanos() >= self.total_nanos() {
            TimeSpan { secs: 0, nanos: 0 }
        } else {
            TimeSpan::of_nanos((self.total_nanos() - elapsed.total_nanos()) as nat)
        }
    }

    /// The span of `secs` whole seconds.
    pub fn from_secs(secs: u64) -> (span: TimeSpan)
        ensures
            span == (TimeSpan { secs, nanos: 0 }),
            span.wf(),
            span.total_nanos() == secs * NANOS_PER_SEC,
    {
        TimeSpan { secs, nanos: 0 }
    }

    /// The span of `secs` seconds and `nanos` nanoseconds.
    pub fn from_parts(secs: u64, nanos: u32) -> (span: TimeSpan)
        requires
            nanos < NANOS_PER_SEC,
        ensures
            span == (TimeSpan { secs, nanos }),
            span.wf(),
    {
        TimeSpan { secs, nanos }
    }

    /// The span as a count of nanoseconds.
    pub fn as_nanos(self) -> (count: u128)
        requires
            self.wf(),
        ensures
            count == self.total_nanos(),
    {
        let secs: u128 = self.secs as u128;
        let nanos: u128 = self.nanos as u128;
        secs * 1_000_000_000 + nanos
    }

    /// Whether this span is at least as long as `other`.
    pub fn reaches(self, other: TimeSpan) -> (reached: bool)
        requires
            self.wf(),
            other.wf(),
        ensures
            reached == (self.total_nanos() >= other.total_nanos()),
    {
        self.secs > other.secs || (self.secs == other.secs && self.nanos >= other.nanos)
    }

    /// What is left of this span once `elapsed` has passed, and nothing once
    /// `elapsed` has reached it.
    pub fn remaining_after(self, elapsed: TimeSpan) -> (left: TimeSpan)
        requires
            self.wf(),
            elapsed.wf(),
        ensures
            left == self.minus(elapsed),
            left.wf(),
            left.total_nanos() == if elapsed.total_nanos() >= self.total_nanos() {
                0
            } else {
                self.total_nanos() - elapsed.total_nanos()
            },
    {
        if elapsed.reaches(self) {
            TimeSpan { secs: 0, nanos: 0 }
        } else if self.nanos >= elapsed.nanos {
            TimeSpan { secs: self.secs - elapsed.secs, nanos: self.nanos - elapsed.nanos }
        } else {
            TimeSpan {
                secs: self.secs - elapsed.secs - 1,
                nanos: self.nanos + 1_000_000_000 - elapsed.nanos,
            }
        }
    }
}

} // verus!
