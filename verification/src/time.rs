//! Points in time and the calendar days they fall on.

use vstd::prelude::*;

verus! {

/// Milliseconds in one calendar day.
pub const MILLIS_PER_DAY: i64 = 86_400_000;

/// The last representable instant: 9999-12-31T23:59:59.999Z.
pub const MAX_MILLIS: i64 = 253_402_300_799_999;

/// The day number of 9999-12-31, counted from 1970-01-01 as day 0.
pub const MAX_DAY: i64 = 2_932_896;

/// An instant in UTC, held as milliseconds since 1970-01-01T00:00:00Z.
///
/// Only instants from the epoch up to the end of the year 9999 exist, so
/// that every instant falls on a day with a four-digit year.
#[derive(Clone, Copy, Debug, PartialEq, Eq, Structural)]
pub struct Timestamp {
    millis: i64,
}

/// The day that holds the instant `millis`, counted from 1970-01-01 as day 0.
pub open spec fn day_of(millis: int) -> int {
    millis / (MILLIS_PER_DAY as int)
}

impl View for Timestamp {
    type V = int;

    /// Milliseconds since the epoch.
    closed spec fn view(&self) -> int {
        self.millis as int
    }
}

impl Timestamp {
    #[verifier::type_invariant]
    spec fn in_range(self) -> bool {
        0 <= self.millis <= MAX_MILLIS
    }

    /// The day this instant falls on, counted from 1970-01-01 as day 0.
    pub open spec fn day(self) -> int {
        day_of(self@)
    }

    /// The instant `millis` milliseconds after the epoch, if it is representable.
    pub fn from_millis(millis: i64) -> (r: Option<Timestamp>)
        ensures
            r is Some <==> 0 <= millis <= MAX_MILLIS,
            r matches Some(t) ==> t@ == millis,
    {
        if 0 <= millis && millis <= MAX_MILLIS {
            Some(Timestamp { millis })
        } else {
            None
        }
    }

    /// Milliseconds since the epoch.
    pub fn millis(&self) -> (r: i64)
        ensures
            r == self@,
            0 <= r <= MAX_MILLIS,
    {
        proof {
            use_type_invariant(self);
        }
        self.millis
    }

    /// The day number of this instant.
    pub fn epoch_day(&self) -> (r: i64)
        ensures
            r == self.day(),
            0 <= r <= MAX_DAY,
    {
        proof {
            use_type_invariant(self);
        }
        self.millis / MILLIS_PER_DAY
    }
}

} // verus!
