//! Local date and time of a timestamp.
use vstd::prelude::*;

use chrono::TimeZone;

verus! {

/// The earliest timestamp, in milliseconds, that has a date: the start of
/// January 1, 262143 BCE.
pub const EARLIEST_DATED_MILLIS: i64 = -8334601228800000;

/// The latest timestamp, in milliseconds, that has a date: the end of
/// December 31, 262142 CE.
pub const LATEST_DATED_MILLIS: i64 = 8210266876799999;

/// Whether a timestamp in milliseconds has a date.
pub open spec fn dated(millis: i64) -> bool {
    EARLIEST_DATED_MILLIS <= millis <= LATEST_DATED_MILLIS
}

/// Relies on chrono's `Local.timestamp_millis_opt` and `DateTime::format`:
/// the local date and time of a timestamp in milliseconds since the epoch,
/// written as `%Y-%m-%d %H:%M:%S`. chrono gives a date exactly to the
/// timestamps whose UTC day lies from `NaiveDate::MIN` to `NaiveDate::MAX`
/// (`DateTime::from_timestamp`), and `timestamp_millis_opt` then has a single
/// local time. The text depends on the machine's time zone, so nothing more
/// is stated of it.
#[verifier::external_body]
pub(crate) fn local_date_text(millis: i64) -> (r: Option<String>)
    ensures
        r is Some <==> dated(millis),
{
    match chrono::Local.timestamp_millis_opt(millis).single() {
        Some(t) => Some(t.format("%Y-%m-%d %H:%M:%S").to_string()),
        None => None,
    }
}

} // verus!
