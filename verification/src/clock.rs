//! Points in time, and the calendar texts that belong to them.

use vstd::prelude::*;

verus! {

/// A point in time: whole seconds since the Unix epoch, and the nanoseconds
/// that follow them.
#[derive(Clone, Copy, Debug, PartialEq, Eq, Structural)]
pub struct Timestamp {
    pub secs: i64,
    pub nanos: u32,
}

impl Timestamp {
    /// `self` lies strictly after the point `minutes` minutes past `start`,
    /// seconds compared first, then nanoseconds. The sum is taken over the
    /// integers: no amount of minutes wraps.
    pub open spec fn is_after_minutes_past(self, start: Timestamp, minutes: i64) -> bool {
        self.secs > start.secs + 60 * minutes || (self.secs == start.secs + 60 * minutes
            && self.nanos > start.nanos)
    }

    /// Whether `self` lies strictly after the point `minutes` minutes past
    /// `start`.
    pub fn after_minutes_past(&self, start: &Timestamp, minutes: i64) -> (r: bool)
        ensures
            r == self.is_after_minutes_past(*start, minutes),
    {
        let limit: i128 = start.secs as i128 + 60 * (minutes as i128);
        let secs: i128 = self.secs as i128;
        secs > limit || (secs == limit && self.nanos > start.nanos)
    }
}

/// The calendar date (UTC) of the second `secs`, as text; `None` where the
/// calendar does not reach that far.
pub uninterp spec fn utc_date_text(secs: i64) -> Option<Seq<char>>;

/// The RFC 3339 text of a point in time (UTC); `None` where the calendar does
/// not reach that far or `nanos` is no valid fraction of a second.
pub uninterp spec fn rfc3339_text(secs: i64, nanos: u32) -> Option<Seq<char>>;

impl Timestamp {
    /// The point in time has an RFC 3339 text: the calendar reaches it.
    pub open spec fn has_text(self) -> bool {
        rfc3339_text(self.secs, self.nanos) is Some
    }
}

/// View of an optional string.
pub open spec fn text_of(s: Option<String>) -> Option<Seq<char>> {
    match s {
        Some(t) => Some(t@),
        None => None,
    }
}

/// Reads the system clock through `chrono::Utc::now`. Which time comes
/// back is the clock's affair. Whatever it is, chrono has made it with
/// `DateTime::from_timestamp` from the very seconds and nanoseconds that are
/// handed on here, and hands out nothing that this function refuses: so the
/// time is one that has its RFC 3339 text.
#[verifier::external_body]
pub(crate) fn now() -> (t: Timestamp)
    ensures
        t.has_text(),
{
    let dt = chrono::Utc::now();
    Timestamp { secs: dt.timestamp(), nanos: dt.timestamp_subsec_nanos() }
}

/// Calls `chrono::TimeZone::timestamp_opt` on `Utc` with no nanoseconds, takes
/// the single result, and prints its `date_naive()`. The text is a function of
/// `secs` alone, named `utc_date_text`; chrono gives none outside its range.
#[verifier::external_body]
pub(crate) fn utc_date_string(secs: i64) -> (r: Option<String>)
    ensures
        text_of(r) == utc_date_text(secs),
{
    chrono::TimeZone::timestamp_opt(&chrono::Utc, secs, 0).single().map(
        |dt| dt.date_naive().to_string(),
    )
}

/// Calls `chrono::DateTime::from_timestamp` and prints the result with
/// `to_rfc3339`. The text is a function of the two numbers alone, named
/// `rfc3339_text`.
#[verifier::external_body]
pub(crate) fn rfc3339_string(t: Timestamp) -> (r: Option<String>)
    ensures
        text_of(r) == rfc3339_text(t.secs, t.nanos),
{
    chrono::DateTime::from_timestamp(t.secs, t.nanos).map(|dt| dt.to_rfc3339())
}

} // verus!
