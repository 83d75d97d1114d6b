//! Checks that the cache builders make before they build a cache.

use vstd::prelude::*;
use vstd::string::*;
use crate::time::{Duration, NANOS_PER_SEC};

verus! {

/// Seconds in a year of 365 days.
pub const YEAR_SECONDS: u64 = 365 * 24 * 3600;

/// The longest time to live or time to idle that a cache accepts, in seconds:
/// 1000 years. Longer expirations could overflow when an expiration time is
/// computed.
pub const MAX_EXPIRATION_SECS: u64 = YEAR_SECONDS * 1000;

/// Why a cache cannot be built from its configuration.
#[derive(Clone, Copy, Debug, PartialEq, Eq, Structural)]
pub enum BuildError {
    /// The time to live is longer than 1000 years.
    TimeToLiveTooLong,
    /// The time to idle is longer than 1000 years.
    TimeToIdleTooLong,
}

impl BuildError {
    /// The text that describes the error.
    pub fn message(&self) -> (s: String)
        ensures
            *self == BuildError::TimeToLiveTooLong ==> s@ == "time_to_live is longer than 1000 years"@,
            *self == BuildError::TimeToIdleTooLong ==> s@ == "time_to_idle is longer than 1000 years"@,
    {
        match self {
            BuildError::TimeToLiveTooLong => String::from_str("time_to_live is longer than 1000 years"),
            BuildError::TimeToIdleTooLong => String::from_str("time_to_idle is longer than 1000 years"),
        }
    }
}

/// Whether `d` is set to more than 1000 years.
pub open spec fn exceeds_max_expiration(d: Option<Duration>) -> bool {
    d matches Some(x) && x.total_nanos() > MAX_EXPIRATION_SECS * NANOS_PER_SEC
}

/// Whether neither expiration is longer than 1000 years.
pub open spec fn expirations_ok(time_to_live: Option<Duration>, time_to_idle: Option<Duration>) -> bool {
    !exceeds_max_expiration(time_to_live) && !exceeds_max_expiration(time_to_idle)
}

/// What `check_expirations` gives for the two expirations: the time to live is
/// checked first.
pub open spec fn spec_check_expirations(time_to_live: Option<Duration>, time_to_idle: Option<Duration>) -> Result<(), BuildError> {
    if exceeds_max_expiration(time_to_live) {
        Err(BuildError::TimeToLiveTooLong)
    } else if exceeds_max_expiration(time_to_idle) {
        Err(BuildError::TimeToIdleTooLong)
    } else {
        Ok(())
    }
}

/// Whether `d` is set to more than 1000 years.
fn exceeds_max(d: Option<Duration>) -> (r: bool)
    ensures
        r == exceeds_max_expiration(d),
{
    match d {
        None => false,
        Some(x) => {
            let max = Duration::from_secs(MAX_EXPIRATION_SECS);
            !x.le(&max)
        },
    }
}

/// Checks that neither the time to live nor the time to idle is longer than
/// 1000 years; where both are, the time to live is reported.
pub fn check_expirations(time_to_live: Option<Duration>, time_to_idle: Option<Duration>) -> (r: Result<(), BuildError>)
    ensures
        r == spec_check_expirations(time_to_live, time_to_idle),
        r is Ok <==> expirations_ok(time_to_live, time_to_idle),
{
    if exceeds_max(time_to_live) {
        Err(BuildError::TimeToLiveTooLong)
    } else if exceeds_max(time_to_idle) {
        Err(BuildError::TimeToIdleTooLong)
    } else {
        Ok(())
    }
}

} // verus!
