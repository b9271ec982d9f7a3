//! Instants read off the system clock.

use vstd::prelude::*;
use crate::clock::nanos_in_range;

verus! {

/// An instant read off the system clock, in nanoseconds after the Unix epoch. Nothing but
/// `utc_now_unix_nanos` makes one, so where a contract speaks of some `ClockReading`, it
/// speaks of a reading of the clock that the code took, not of an instant it chose.
pub struct ClockReading {
    nanos: i128,
}

impl ClockReading {
    /// The instant read, in nanoseconds after the Unix epoch.
    pub closed spec fn unix_nanos(self) -> i128 {
        self.nanos
    }

    /// The instant read, in nanoseconds after the Unix epoch.
    pub fn nanos(&self) -> (n: i128)
        ensures
            n == self.unix_nanos(),
    {
        self.nanos
    }
}

/// Calls `time::OffsetDateTime::now_utc` and reads the instant with `unix_timestamp_nanos`.
/// The clock decides the value; the contract claims only the range that
/// `unix_timestamp_nanos` can return.
#[verifier::external_body]
pub(crate) fn utc_now_unix_nanos() -> (r: ClockReading)
    ensures
        nanos_in_range(r.unix_nanos()),
{
    ClockReading { nanos: time::OffsetDateTime::now_utc().unix_timestamp_nanos() }
}

} // verus!
