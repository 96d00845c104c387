//! Spans of time, and their conversion to calendar spans.

use vstd::prelude::*;

use crate::connection::Nanos;

verus! {

/// Nanoseconds in a second.
pub const NANOS_PER_SEC: u128 = 1_000_000_000;

/// Nanoseconds in a millisecond.
pub const NANOS_PER_MILLI: u128 = 1_000_000;

/// The longest span a standard duration holds.
pub const STD_DURATION_MAX: Nanos = 18_446_744_073_709_551_615_999_999_999;

/// The longest calendar span, `i64::MAX` milliseconds.
pub const CALENDAR_DURATION_MAX: Nanos = 9_223_372_036_854_775_807_000_000;

/// Whole seconds as a span.
pub fn from_secs(secs: u64) -> (span: Nanos)
    ensures
        span == secs * NANOS_PER_SEC,
        span <= STD_DURATION_MAX,
{
    (secs as u128) * NANOS_PER_SEC
}

/// Whole milliseconds as a span.
pub fn from_millis(millis: u64) -> (span: Nanos)
    ensures
        span == millis * NANOS_PER_MILLI,
        span <= STD_DURATION_MAX,
{
    (millis as u128) * NANOS_PER_MILLI
}

/// Calls `chrono::TimeDelta::from_std` on the span of `secs` seconds and
/// `nanos` nanoseconds, and takes the result apart again. It refuses exactly
/// the spans beyond `i64::MAX` milliseconds, and keeps all others.
#[verifier::external_body]
fn calendar_from_std(secs: u64, nanos: u32) -> (span: Option<(i64, i32)>)
    requires
        nanos < 1_000_000_000,
    ensures
        span is Some <==> secs * NANOS_PER_SEC + nanos <= CALENDAR_DURATION_MAX,
        span matches Some((whole, rest)) ==> whole == secs && rest == nanos,
{
    chrono::TimeDelta::from_std(std::time::Duration::new(secs, nanos))
        .ok()
        .map(|span| (span.num_seconds(), span.subsec_nanos()))
}

/// The calendar span of a standard one, saturating at the longest there is.
pub fn chrono_duration_from_std(duration: Nanos) -> (span: Nanos)
    ensures
        span == (if duration <= CALENDAR_DURATION_MAX {
            duration
        } else {
            CALENDAR_DURATION_MAX
        }),
{
    let secs: u128 = duration / NANOS_PER_SEC;
    let nanos: u128 = duration % NANOS_PER_SEC;
    if secs > 18_446_744_073_709_551_615 {
        return CALENDAR_DURATION_MAX;
    }
    match calendar_from_std(secs as u64, nanos as u32) {
        Some((whole, rest)) => (whole as u128) * NANOS_PER_SEC + (rest as u128),
        None => CALENDAR_DURATION_MAX,
    }
}

} // verus!
