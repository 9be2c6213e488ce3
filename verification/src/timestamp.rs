//! Points in time, as the vault records them.

use chrono::Utc;
use vstd::prelude::*;

verus! {

/// A point in time: whole seconds since 1970-01-01 00:00:00 UTC, and the
/// nanoseconds since the last whole second (a billion or more only within
/// a leap second).
#[derive(Debug, Clone, Copy, PartialEq, Eq, Structural)]
pub struct Timestamp {
    pub secs: i64,
    pub nanos: u32,
}

/// `chrono::Utc::now`, taken apart by `DateTime::timestamp` and
/// `DateTime::timestamp_subsec_nanos`. The clock is read as the time that
/// has passed since the epoch, whose part below a second is under a billion
/// nanoseconds: the reading is never within a leap second. Nothing else is
/// promised of the value: it is whatever the system clock says.
#[verifier::external_body]
fn clock_now() -> (now: Timestamp)
    ensures
        now.nanos < 1_000_000_000,
{
    let now = Utc::now();
    Timestamp { secs: now.timestamp(), nanos: now.timestamp_subsec_nanos() }
}

impl Timestamp {
    /// The current time, as the system clock gives it: a point within an
    /// ordinary second, never within a leap second.
    pub fn now() -> (now: Timestamp)
        ensures
            now.nanos < 1_000_000_000,
    {
        clock_now()
    }
}

} // verus!
