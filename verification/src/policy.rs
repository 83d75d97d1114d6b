//! The settings that a built cache reports.

use vstd::prelude::*;
use crate::time::Duration;

verus! {

/// The capacity, number of segments and expirations of a cache.
#[derive(Clone, Copy, Debug, PartialEq, Eq, Structural)]
pub struct Policy {
    max_capacity: Option<u64>,
    num_segments: usize,
    time_to_live: Option<Duration>,
    time_to_idle: Option<Duration>,
}

impl Policy {
    /// The maximum capacity, if any.
    pub closed spec fn spec_max_capacity(&self) -> Option<u64> {
        self.max_capacity
    }

    /// The number of internal segments.
    pub closed spec fn spec_num_segments(&self) -> usize {
        self.num_segments
    }

    /// The time to live, if any.
    pub closed spec fn spec_time_to_live(&self) -> Option<Duration> {
        self.time_to_live
    }

    /// The time to idle, if any.
    pub closed spec fn spec_time_to_idle(&self) -> Option<Duration> {
        self.time_to_idle
    }

    /// A policy with the given settings.
    pub fn new(
        max_capacity: Option<u64>,
        num_segments: usize,
        time_to_live: Option<Duration>,
        time_to_idle: Option<Duration>,
    ) -> (p: Policy)
        ensures
            p.spec_max_capacity() == max_capacity,
            p.spec_num_segments() == num_segments,
            p.spec_time_to_live() == time_to_live,
            p.spec_time_to_idle() == time_to_idle,
    {
        Policy { max_capacity, num_segments, time_to_live, time_to_idle }
    }

    /// The maximum capacity, if any.
    #[verifier::when_used_as_spec(spec_max_capacity)]
    pub fn max_capacity(&self) -> (r: Option<u64>)
        ensures
            r == self.spec_max_capacity(),
    {
        self.max_capacity
    }

    /// The number of internal segments.
    #[verifier::when_used_as_spec(spec_num_segments)]
    pub fn num_segments(&self) -> (r: usize)
        ensures
            r == self.spec_num_segments(),
    {
        self.num_segments
    }

    /// The time to live, if any.
    #[verifier::when_used_as_spec(spec_time_to_live)]
    pub fn time_to_live(&self) -> (r: Option<Duration>)
        ensures
            r == self.spec_time_to_live(),
    {
        self.time_to_live
    }

    /// The time to idle, if any.
    #[verifier::when_used_as_spec(spec_time_to_idle)]
    pub fn time_to_idle(&self) -> (r: Option<Duration>)
        ensures
            r == self.spec_time_to_idle(),
    {
        self.time_to_idle
    }
}

} // verus!
