//! Points in time, as the engine sees them.

use vstd::prelude::*;

verus! {

/// A point in time: milliseconds since the Unix epoch, UTC.
#[derive(Clone, Copy, Debug, PartialEq, Eq, Structural)]
pub struct Timestamp {
    pub millis: i64,
}

/// How long a match may stay without any connected participant, in milliseconds.
pub const EXPIRY_MILLIS: i64 = 60_000;

impl Timestamp {
    pub fn from_millis(millis: i64) -> (t: Timestamp)
        ensures
            t.millis == millis,
    {
        Timestamp { millis }
    }

    /// Milliseconds from `earlier` to `self`; negative where `earlier` is the later one.
    pub open spec fn millis_since(self, earlier: Timestamp) -> int {
        self.millis - earlier.millis
    }

    /// Whether more than `limit` milliseconds lie between `earlier` and `self`.
    pub fn is_more_than_after(&self, earlier: Timestamp, limit: i64) -> (late: bool)
        ensures
            late == (self.millis_since(earlier) > limit),
    {
        let gap: i128 = self.millis as i128 - earlier.millis as i128;
        gap > limit as i128
    }
}

/// The clock of the machine, read through `chrono::Utc::now` and reduced to
/// whole milliseconds by `DateTime::timestamp_millis`. Nothing is claimed of
/// the value: two readings need not even be ordered.
#[verifier::external_body]
pub(crate) fn current_time() -> (t: Timestamp) {
    Timestamp { millis: chrono::Utc::now().timestamp_millis() }
}

} // verus!
