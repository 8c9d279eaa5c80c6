//! A span of time as whole seconds and a sub-second part in nanoseconds.

use vstd::prelude::*;

verus! {

/// Nanoseconds in one second.
pub const NANOS_PER_SEC: u32 = 1_000_000_000;

/// A non-negative span of time. Measured from a fixed epoch it is a timestamp.
#[derive(Clone, Copy, Debug, PartialEq, Eq, Structural)]
pub struct Duration {
    secs: u64,
    nanos: u32,
}

impl Duration {
    /// The sub-second part is always less than one second.
    #[verifier::type_invariant]
    spec fn inv(self) -> bool {
        self.nanos < NANOS_PER_SEC
    }

    /// Whole seconds of the span.
    pub closed spec fn spec_secs(self) -> nat {
        self.secs as nat
    }

    /// Nanoseconds beyond the whole seconds.
    pub closed spec fn spec_subsec_nanos(self) -> nat {
        self.nanos as nat
    }

    /// The span in nanoseconds.
    pub open spec fn total_nanos(self) -> nat {
        self.spec_secs() * 1_000_000_000 + self.spec_subsec_nanos()
    }

    /// Whether the sub-second part is less than one second, as it is in every
    /// value that a program holds.
    pub open spec fn wf(self) -> bool {
        self.spec_subsec_nanos() < 1_000_000_000
    }

    /// Builds a span from seconds and nanoseconds; nanoseconds beyond one second
    /// carry over into the seconds.
    pub fn new(secs: u64, nanos: u32) -> (d: Duration)
        requires
            secs + nanos / 1_000_000_000 <= u64::MAX,
        ensures
            d.total_nanos() == secs * 1_000_000_000 + nanos,
            nanos < 1_000_000_000 ==> d.spec_secs() == secs && d.spec_subsec_nanos() == nanos,
            d.wf(),
    {
        let carry: u32 = nanos / NANOS_PER_SEC;
        let rest: u32 = nanos % NANOS_PER_SEC;
        Duration { secs: secs + carry as u64, nanos: rest }
    }

    /// Whole seconds of the span.
    pub fn as_secs(&self) -> (s: u64)
        ensures
            s == self.spec_secs(),
    {
        self.secs
    }

    /// Nanoseconds beyond the whole seconds, always less than one second.
    pub fn subsec_nanos(&self) -> (n: u32)
        ensures
            n == self.spec_subsec_nanos(),
            n < 1_000_000_000,
    {
        proof {
            use_type_invariant(self);
        }
        self.nanos
    }

    /// The span in nanoseconds.
    pub fn as_nanos(&self) -> (n: u128)
        ensures
            n == self.total_nanos(),
            n < 18_446_744_073_709_551_616 * 1_000_000_000,
    {
        proof {
            use_type_invariant(self);
        }
        self.secs as u128 * 1_000_000_000 + self.nanos as u128
    }

    /// The span from `earlier` to `self`, where `earlier` is not the later one.
    pub fn checked_sub(&self, earlier: &Duration) -> (r: Option<Duration>)
        ensures
            r is Some <==> earlier.total_nanos() <= self.total_nanos(),
            r matches Some(d) ==> d.wf() && d.total_nanos() == self.total_nanos()
                - earlier.total_nanos(),
    {
        proof {
            use_type_invariant(self);
            use_type_invariant(earlier);
        }
        if self.secs < earlier.secs {
            None
        } else if self.nanos >= earlier.nanos {
            Some(Duration { secs: self.secs - earlier.secs, nanos: self.nanos - earlier.nanos })
        } else if self.secs > earlier.secs {
            Some(
                Duration {
                    secs: self.secs - earlier.secs - 1,
                    nanos: self.nanos + NANOS_PER_SEC - earlier.nanos,
                },
            )
        } else {
            None
        }
    }

    /// Whether `self` is at least as long as `other`.
    pub fn at_least(&self, other: &Duration) -> (b: bool)
        ensures
            b == (self.total_nanos() >= other.total_nanos()),
    {
        proof {
            use_type_invariant(self);
            use_type_invariant(other);
        }
        self.secs > other.secs || (self.secs == other.secs && self.nanos >= other.nanos)
    }
}

} // verus!
