//! Points in time, and the calls into `chrono` that produce them.
//!
//! The store keeps timestamps as RFC 3339 text. Reading such text, and asking
//! for the current time, is left to `chrono`; what is decided from the
//! results is verified here.

use vstd::prelude::*;

verus! {

/// A point in time: seconds since 1970-01-01T00:00:00Z without leap seconds,
/// nanoseconds into that second, and the offset from UTC, in seconds east,
/// under which the time was written.
#[derive(Debug, Clone, Copy, PartialEq, Eq, Structural)]
pub struct Instant {
    pub secs: i64,
    pub nanos: u32,
    pub offset: i32,
}

/// What `chrono` reads from RFC 3339 text: the instant it denotes, or nothing
/// when the text is not a valid RFC 3339 date and time.
pub uninterp spec fn rfc3339_instant(text: Seq<char>) -> Option<Instant>;

/// The whole hours, rounded toward zero, from one instant to another, as
/// `chrono` computes them; nothing where `chrono` has no date for one of the
/// instants.
pub uninterp spec fn whole_hours_between(
    from_secs: i64,
    from_nanos: u32,
    to_secs: i64,
    to_nanos: u32,
) -> Option<i64>;

/// An instant as RFC 3339 text in UTC, as `chrono` writes it; empty where
/// `chrono` has no date for the instant.
pub uninterp spec fn rfc3339_text(secs: i64, nanos: u32) -> Seq<char>;

/// The calendar date, written `YYYY-MM-DD`, of the UTC day in which the
/// instant `secs` lies, as `chrono` formats it; empty where `chrono` has no
/// date for the instant.
pub uninterp spec fn utc_date_text(secs: i64) -> Seq<char>;

/// Reads RFC 3339 text with `chrono::DateTime::parse_from_rfc3339`.
///
/// Trusted: the result is a function of the text alone, named
/// [`rfc3339_instant`]. The fields are `timestamp()`,
/// `timestamp_subsec_nanos()` and the offset's `local_minus_utc()` of the
/// parsed value.
#[verifier::external_body]
pub(crate) fn parse_rfc3339(text: &str) -> (r: Option<Instant>)
    ensures
        r == rfc3339_instant(text@),
{
    match chrono::DateTime::parse_from_rfc3339(text) {
        Ok(dt) => Some(
            Instant {
                secs: dt.timestamp(),
                nanos: dt.timestamp_subsec_nanos(),
                offset: dt.offset().local_minus_utc(),
            },
        ),
        Err(_) => None,
    }
}

/// Asks `chrono` for the whole hours from one instant to another: the
/// difference of the two `DateTime<Utc>` values, then `TimeDelta::num_hours`.
/// The instants are handed over with `DateTime::from_timestamp`.
///
/// Trusted: the result is a function of the arguments alone, named
/// [`whole_hours_between`]. It is nothing where `from_timestamp` gives no
/// date.
#[verifier::external_body]
pub(crate) fn hours_between(from: Instant, to: Instant) -> (r: Option<i64>)
    ensures
        r == whole_hours_between(from.secs, from.nanos, to.secs, to.nanos),
{
    match (
        chrono::DateTime::from_timestamp(from.secs, from.nanos),
        chrono::DateTime::from_timestamp(to.secs, to.nanos),
    ) {
        (Some(from), Some(to)) => Some((to - from).num_hours()),
        _ => None,
    }
}

/// Writes an instant as RFC 3339 text in UTC: `DateTime::to_rfc3339`. The
/// instant is handed over with `DateTime::from_timestamp`.
///
/// Trusted: the result is a function of the arguments alone, named
/// [`rfc3339_text`]. It is empty where `from_timestamp` gives no date.
#[verifier::external_body]
pub(crate) fn to_rfc3339(at: Instant) -> (r: String)
    ensures
        r@ == rfc3339_text(at.secs, at.nanos),
{
    match chrono::DateTime::from_timestamp(at.secs, at.nanos) {
        Some(dt) => dt.to_rfc3339(),
        None => String::new(),
    }
}

/// Writes the UTC date of an instant: `DateTime::from_timestamp`, then
/// `format("%Y-%m-%d")` on its `date_naive()`.
///
/// Trusted: the result is a function of the argument alone, named
/// [`utc_date_text`]. It is empty where `from_timestamp` gives no date.
#[verifier::external_body]
pub(crate) fn utc_date(secs: i64) -> (r: String)
    ensures
        r@ == utc_date_text(secs),
{
    match chrono::DateTime::from_timestamp(secs, 0) {
        Some(dt) => dt.date_naive().format("%Y-%m-%d").to_string(),
        None => String::new(),
    }
}

/// Reads the clock with `chrono::Utc::now`.
///
/// Trusted: nothing is claimed of the result, which differs from call to
/// call. `chrono` panics if the system clock is set before 1970.
#[verifier::external_body]
pub(crate) fn utc_now() -> (r: Instant) {
    let now = chrono::Utc::now();
    Instant { secs: now.timestamp(), nanos: now.timestamp_subsec_nanos(), offset: 0 }
}

impl Instant {
    /// Whether `self` is strictly later than `other`. Offsets play no part:
    /// two instants are compared by the moment they denote.
    pub open spec fn later_than(self, other: Instant) -> bool {
        self.secs > other.secs || (self.secs == other.secs && self.nanos > other.nanos)
    }

    /// Decides whether `self` is strictly later than `other`.
    pub fn is_later_than(&self, other: &Instant) -> (r: bool)
        ensures
            r == self.later_than(*other),
    {
        self.secs > other.secs || (self.secs == other.secs && self.nanos > other.nanos)
    }
}

} // verus!
