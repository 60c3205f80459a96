//! Identifiers and clock readings, which come from the `uuid` and `chrono`
//! crates.
use vstd::prelude::*;

verus! {

/// A fresh random identifier: `uuid::Uuid::new_v4()` in its `Display`
/// form, which the crate writes as 32 lower-case hex digits in groups of
/// 8-4-4-4-12 joined by hyphens. Which identifier comes out is left open.
#[verifier::external_body]
pub fn new_id() -> (id: String)
    ensures
        id@.len() == 36,
        id@[8] == '-',
        id@[13] == '-',
        id@[18] == '-',
        id@[23] == '-',
{
    uuid::Uuid::new_v4().to_string()
}

/// The current time in whole seconds since the Unix epoch:
/// `chrono::Utc::now().timestamp()`. `Utc::now` panics for a clock before
/// the epoch or beyond the last representable date (year 262142), so a
/// value that comes back lies in between. Which value comes back is left
/// open.
#[verifier::external_body]
pub fn now_timestamp() -> (t: i64)
    ensures
        0 <= t < 10_000_000_000_000,
{
    chrono::Utc::now().timestamp()
}

/// An RFC 3339 time in UTC as `chrono` writes it: at least the 25
/// characters of `YYYY-MM-DDTHH:MM:SS+00:00`, ending with the offset
/// `+00:00`.
pub open spec fn utc_rfc3339(s: Seq<char>) -> bool {
    &&& s.len() >= 25
    &&& s.subrange(s.len() - 6, s.len() as int) == "+00:00"@
}

/// The current time as an RFC 3339 string:
/// `chrono::Utc::now().to_rfc3339()`. For a UTC time chrono writes the
/// date, `T`, the time (seconds with a fraction only when there is one)
/// and the offset `+00:00` (see [`utc_rfc3339`]). Which time it is is left
/// open.
#[verifier::external_body]
pub fn now_rfc3339() -> (s: String)
    ensures
        utc_rfc3339(s@),
{
    chrono::Utc::now().to_rfc3339()
}

#[verifier::external_type_specification]
#[verifier::external_body]
pub struct ExInstant(std::time::Instant);

/// `std::time::Instant::now()`: a reading of the monotonic clock.
#[verifier::external_body]
pub fn clock_now() -> std::time::Instant {
    std::time::Instant::now()
}

/// `start.elapsed().as_millis()` as an `i64`: the milliseconds since
/// `start`. Its value is left open.
#[verifier::external_body]
pub fn millis_since(start: &std::time::Instant) -> i64 {
    start.elapsed().as_millis() as i64
}


/// What `chrono` writes, with the format `%Y-%m-%d %H:%M:%S`, for the UTC
/// instant `ms` milliseconds after the Unix epoch; `None` when the instant
/// lies outside the range of dates that `chrono` represents.
pub uninterp spec fn utc_millis_text(ms: i64) -> Option<Seq<char>>;

/// `chrono::Utc.timestamp_millis_opt(ms)`, taken when it is a single
/// instant and written with `format("%Y-%m-%d %H:%M:%S")` (see
/// [`utc_millis_text`]).
#[verifier::external_body]
pub fn format_utc_millis(ms: i64) -> (r: Option<String>)
    ensures
        crate::storage::opt_text(r) == utc_millis_text(ms),
{
    <chrono::Utc as chrono::TimeZone>::timestamp_millis_opt(&chrono::Utc, ms).single().map(
        |d| d.format("%Y-%m-%d %H:%M:%S").to_string(),
    )
}

/// The current UTC time written with the format `%Y-%m-%d %H:%M:%S`:
/// `chrono::Utc::now().format(..)`. Its value is left open.
#[verifier::external_body]
pub fn now_formatted() -> String {
    chrono::Utc::now().format("%Y-%m-%d %H:%M:%S").to_string()
}

} // verus!
