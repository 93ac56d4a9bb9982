//! Rendering timestamps as millisecond-precision UTC ISO-8601 text.
//!
//! The calendar arithmetic lives in the chrono crate; this crate only
//! names its result.  Timestamps beyond the last millisecond of year
//! 9999 are clamped to that instant before formatting, so the formatter
//! is total over `u64` milliseconds.

use vstd::prelude::*;

verus! {

/// Last millisecond of year 9999, the largest instant the formatter
/// renders.
pub const MAX_FORMAT_MS: i64 = 253402300799999;

/// The RFC 3339 rendering of an epoch timestamp in UTC with millisecond
/// precision and a `Z` suffix, as chrono produces it.
pub uninterp spec fn rfc3339_utc_millis_of(ms: i64) -> Seq<char>;

/// Relies on chrono's `DateTime::<Utc>::from_timestamp_millis`, which
/// returns a datetime for every in-range millisecond count, and
/// `to_rfc3339_opts` with millisecond seconds-format and the `Z`
/// suffix; together they render a UTC timestamp from the millisecond
/// count alone.
#[verifier::external_body]
fn rfc3339_utc_millis(ms: i64) -> (r: String)
    requires
        0 <= ms <= MAX_FORMAT_MS,
    ensures
        r@ == rfc3339_utc_millis_of(ms),
{
    match chrono::DateTime::<chrono::Utc>::from_timestamp_millis(ms) {
        Some(dt) => dt.to_rfc3339_opts(chrono::SecondsFormat::Millis, true),
        None => String::new(),
    }
}

/// Text of an event timestamp: its RFC 3339 rendering, clamped to the
/// last representable instant.
pub open spec fn timestamp_text_of(ms: u64) -> Seq<char> {
    if ms <= MAX_FORMAT_MS {
        rfc3339_utc_millis_of(ms as i64)
    } else {
        rfc3339_utc_millis_of(MAX_FORMAT_MS)
    }
}

/// Renders an event timestamp.
pub fn timestamp_text(ms: u64) -> (r: String)
    ensures
        r@ == timestamp_text_of(ms),
{
    if ms <= MAX_FORMAT_MS as u64 {
        rfc3339_utc_millis(ms as i64)
    } else {
        rfc3339_utc_millis(MAX_FORMAT_MS)
    }
}

} // verus!
