//! Points in time and the retry deadline of a payment.

use vstd::prelude::*;

verus! {

/// Seconds during which a payment whose transaction cannot be built is
/// retried, counted from the payment's due date.
pub const TX_SUBMIT_TIMEOUT_SECS: i64 = 900;

/// A point in time: whole seconds since the Unix epoch and the nanoseconds
/// past that second. Two timestamps compare by seconds first, then by
/// nanoseconds.
#[derive(Clone, Copy, Debug, PartialEq, Eq, Structural)]
pub struct Timestamp {
    pub secs: i64,
    pub nanos: u32,
}

impl Timestamp {
    /// `self` lies strictly after `other`.
    pub open spec fn is_after(self, other: Timestamp) -> bool {
        self.secs > other.secs || (self.secs == other.secs && self.nanos > other.nanos)
    }

    /// `self` lies strictly after `due` plus the retry window.
    pub open spec fn is_past_deadline(self, due: Timestamp) -> bool {
        self.secs > due.secs + TX_SUBMIT_TIMEOUT_SECS || (self.secs == due.secs
            + TX_SUBMIT_TIMEOUT_SECS && self.nanos > due.nanos)
    }

    pub fn new(secs: i64, nanos: u32) -> (t: Timestamp)
        ensures
            t.secs == secs,
            t.nanos == nanos,
    {
        Timestamp { secs, nanos }
    }

    /// Whether `self` lies strictly after `other`.
    pub fn after(&self, other: &Timestamp) -> (r: bool)
        ensures
            r == self.is_after(*other),
    {
        self.secs > other.secs || (self.secs == other.secs && self.nanos > other.nanos)
    }

    /// Whether the retry window of a payment due at `due` has run out at
    /// `self`. A deadline beyond the last representable second is never
    /// passed.
    pub fn past_deadline(&self, due: &Timestamp) -> (r: bool)
        ensures
            r == self.is_past_deadline(*due),
    {
        match due.secs.checked_add(TX_SUBMIT_TIMEOUT_SECS) {
            Some(limit) => self.secs > limit || (self.secs == limit && self.nanos > due.nanos),
            None => false,
        }
    }
}

/// Reads the system clock through `chrono::Utc::now`. Nothing is claimed of
/// the value: two readings may differ in any way. The call itself fails only
/// where the system clock stands before the Unix epoch.
#[verifier::external_body]
pub(crate) fn utc_now() -> (t: Timestamp) {
    let now = chrono::Utc::now();
    Timestamp { secs: now.timestamp(), nanos: now.timestamp_subsec_nanos() }
}

} // verus!
