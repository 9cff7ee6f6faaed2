//! Instants written as RFC 3339 text, read with `chrono`.

use crate::storage::models::Timestamp;
use vstd::prelude::*;

verus! {

/// The instant that `chrono` reads from `text` as an RFC 3339 date and time;
/// `None` where it reads none.
pub uninterp spec fn rfc3339_instant(text: Seq<char>) -> Option<Timestamp>;

/// Calls `chrono::DateTime::parse_from_rfc3339` and takes the instant read by
/// `DateTime::timestamp` and `DateTime::timestamp_subsec_nanos`, which count
/// from the Unix epoch in UTC whatever offset the text names. Assumed: what
/// comes back depends on the text alone.
#[verifier::external_body]
fn read_rfc3339(text: &str) -> (instant: Option<Timestamp>)
    ensures
        instant == rfc3339_instant(text@),
{
    match chrono::DateTime::parse_from_rfc3339(text) {
        Ok(read) => Some(
            Timestamp { seconds: read.timestamp(), nanos: read.timestamp_subsec_nanos() },
        ),
        Err(_) => None,
    }
}

/// The instant that `parsed` holds, or `fallback` where it holds none.
pub open spec fn instant_or(parsed: Option<Timestamp>, fallback: Timestamp) -> Timestamp {
    match parsed {
        Some(instant) => instant,
        None => fallback,
    }
}

/// Settles the instant of a text that may not have been one: what was read
/// from it, or `fallback`.
pub fn settle_instant(parsed: Option<Timestamp>, fallback: Timestamp) -> (instant: Timestamp)
    ensures
        instant == instant_or(parsed, fallback),
{
    match parsed {
        Some(instant) => instant,
        None => fallback,
    }
}

/// Reads `text` as an RFC 3339 date and time, and falls back to `fallback`
/// where it is none.
pub fn parse_instant(text: &str, fallback: Timestamp) -> (instant: Timestamp)
    ensures
        instant == instant_or(rfc3339_instant(text@), fallback),
{
    settle_instant(read_rfc3339(text), fallback)
}

} // verus!
