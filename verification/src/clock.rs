//! Identifiers and clock readings, taken from `uuid` and `chrono`.
//!
//! These depend on chance and on the system clock, so their contracts state
//! only what holds of every outcome.

use vstd::prelude::*;

verus! {

/// A fresh random identifier: `uuid::Uuid::new_v4`, formatted by its
/// `Display` impl, which writes the hyphenated lowercase form of 36
/// characters. Only that length is claimed; the value is random.
#[verifier::external_body]
pub(crate) fn new_id() -> (s: String)
    ensures
        s@.len() == 36,
{
    uuid::Uuid::new_v4().to_string()
}

/// The current UTC time in milliseconds since the Unix epoch:
/// `chrono::Utc::now().timestamp_millis()`. `Utc::now` panics on a clock set
/// before the epoch, so a returned value is never negative; nothing else is
/// claimed of it.
#[verifier::external_body]
pub(crate) fn now_millis() -> (t: i64)
    ensures
        t >= 0,
{
    chrono::Utc::now().timestamp_millis()
}

/// The current local wall-clock time, in milliseconds since the Unix epoch as
/// read in the machine's time zone: `chrono::Local::now()`, taken as a naive
/// local date-time. It depends on the clock and the time zone; nothing is
/// claimed of it.
#[verifier::external_body]
pub(crate) fn local_now_millis() -> (t: i64) {
    chrono::Local::now().naive_local().and_utc().timestamp_millis()
}

/// The first millisecond that `chrono` represents: January 1 of the year
/// -262143 (UTC).
pub const EARLIEST_MS: i64 = -8_334_601_315_200_000;

/// The last millisecond that `chrono` represents: December 31 of the year
/// 262142, 23:59:59.999 (UTC).
pub const LATEST_MS: i64 = 8_210_266_876_799_999;

/// An instant that `chrono::DateTime<Utc>` can hold: one for which
/// `DateTime::from_timestamp_millis` gives a value.
pub open spec fn in_calendar(ms: int) -> bool {
    EARLIEST_MS <= ms <= LATEST_MS
}

/// The RFC 3339 text of an instant, as `chrono` writes a `DateTime<Utc>`.
pub uninterp spec fn rfc3339_text(ms: i64) -> Seq<char>;

/// The `%Y-%m-%d` date of an instant in UTC, as `chrono` formats it.
pub uninterp spec fn date_text(ms: i64) -> Seq<char>;

/// `chrono::DateTime::<Utc>::from_timestamp_millis(ms)` then `to_rfc3339`.
/// The instant is representable for every admitted input; the text is
/// named, not written out.
#[verifier::external_body]
pub(crate) fn rfc3339_of(ms: i64) -> (s: String)
    requires
        in_calendar(ms as int),
    ensures
        s@ == rfc3339_text(ms),
{
    match chrono::DateTime::from_timestamp_millis(ms) {
        Some(t) => t.to_rfc3339(),
        None => String::new(),
    }
}

/// `chrono::DateTime::<Utc>::from_timestamp_millis(ms)` then
/// `format("%Y-%m-%d")`. The text is named, not written out.
#[verifier::external_body]
pub(crate) fn date_of(ms: i64) -> (s: String)
    requires
        in_calendar(ms as int),
    ensures
        s@ == date_text(ms),
{
    match chrono::DateTime::from_timestamp_millis(ms) {
        Some(t) => t.format("%Y-%m-%d").to_string(),
        None => String::new(),
    }
}

/// The current UTC time in RFC 3339 form: `chrono::Utc::now().to_rfc3339()`.
/// Nothing is claimed of the text.
#[verifier::external_body]
pub(crate) fn now_rfc3339() -> (s: String) {
    chrono::Utc::now().to_rfc3339()
}

} // verus!
