//! A span of time, held as whole seconds and a sub-second nanosecond part.

use vstd::prelude::*;

verus! {

/// Number of nanoseconds in one second.
pub const NANOS_PER_SEC: u32 = 1_000_000_000;

/// A span of time: `secs` whole seconds plus `nanos` nanoseconds, where the
/// nanosecond part is always below one second.
#[derive(Clone, Copy, Debug, PartialEq, Eq, Structural, Hash)]
pub struct Duration {
    secs: u64,
    nanos: u32,
}

impl Duration {
    #[verifier::type_invariant]
    spec fn inv(self) -> bool {
        self.nanos < NANOS_PER_SEC
    }

    /// Whole seconds of the span.
    pub closed spec fn spec_as_secs(&self) -> u64 {
        self.secs
    }

    /// Nanoseconds beyond the whole seconds.
    pub closed spec fn spec_subsec_nanos(&self) -> u32 {
        self.nanos
    }

    /// The whole span in nanoseconds.
    pub open spec fn total_nanos(self) -> int {
        self.spec_as_secs() * NANOS_PER_SEC + self.spec_subsec_nanos()
    }

    /// A span of `secs` whole seconds.
    pub fn from_secs(secs: u64) -> (d: Duration)
        ensures
            d.spec_as_secs() == secs,
            d.spec_subsec_nanos() == 0,
            d.total_nanos() == secs * NANOS_PER_SEC,
    {
        Duration { secs, nanos: 0 }
    }

    /// A span of `secs` seconds plus `nanos` nanoseconds; a nanosecond count of a
    /// second or more carries into the seconds.
    pub fn new(secs: u64, nanos: u32) -> (d: Duration)
        requires
            secs + nanos / NANOS_PER_SEC <= u64::MAX,
        ensures
            d.spec_as_secs() == secs + nanos / NANOS_PER_SEC,
            d.spec_subsec_nanos() == nanos % NANOS_PER_SEC,
            d.total_nanos() == secs * NANOS_PER_SEC + nanos,
    {
        let extra: u64 = (nanos / NANOS_PER_SEC) as u64;
        let rest: u32 = nanos % NANOS_PER_SEC;
        Duration { secs: secs + extra, nanos: rest }
    }

    /// Whole seconds of the span.
    #[verifier::when_used_as_spec(spec_as_secs)]
    pub fn as_secs(&self) -> (r: u64)
        ensures
            r == self.spec_as_secs(),
    {
        self.secs
    }

    /// Nanoseconds beyond the whole seconds; always below one second.
    #[verifier::when_used_as_spec(spec_subsec_nanos)]
    pub fn subsec_nanos(&self) -> (r: u32)
        ensures
            r == self.spec_subsec_nanos(),
            r < NANOS_PER_SEC,
    {
        proof {
            use_type_invariant(self);
        }
        self.nanos
    }

    /// The sum of two spans, or `None` where its whole seconds do not fit in a `u64`.
    pub fn checked_add(self, rhs: Duration) -> (r: Option<Duration>)
        ensures
            r is Some <==> self.total_nanos() + rhs.total_nanos() < (u64::MAX + 1) * NANOS_PER_SEC,
            r matches Some(d) ==> d.total_nanos() == self.total_nanos() + rhs.total_nanos(),
    {
        proof {
            use_type_invariant(&self);
            use_type_invariant(&rhs);
        }
        let nanos_sum: u32 = self.nanos + rhs.nanos;
        let carry: u64 = if nanos_sum >= NANOS_PER_SEC { 1 } else { 0 };
        let nanos: u32 = if nanos_sum >= NANOS_PER_SEC { nanos_sum - NANOS_PER_SEC } else { nanos_sum };
        match self.secs.checked_add(rhs.secs) {
            None => None,
            Some(s) => match s.checked_add(carry) {
                None => None,
                Some(secs) => Some(Duration { secs, nanos }),
            },
        }
    }

    /// Whether this span is at most `other`.
    pub fn le(&self, other: &Duration) -> (r: bool)
        ensures
            r == (self.total_nanos() <= other.total_nanos()),
    {
        proof {
            use_type_invariant(self);
            use_type_invariant(other);
        }
        self.secs < other.secs || (self.secs == other.secs && self.nanos <= other.nanos)
    }
}

} // verus!
