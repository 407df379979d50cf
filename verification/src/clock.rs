//! Reading RFC 3339 timestamps.

use vstd::prelude::*;

verus! {

/// The instant that an RFC 3339 text denotes, in microseconds since the Unix
/// epoch; `None` for a text that is no such timestamp.
pub uninterp spec fn rfc3339_micros(text: Seq<char>) -> Option<i64>;

/// The whole hours from the instant that `start` denotes to the one that
/// `end` denotes, negative when `end` is the earlier one; `None` unless both
/// are RFC 3339 timestamps.
pub uninterp spec fn rfc3339_hours_between(start: Seq<char>, end: Seq<char>) -> Option<i64>;

/// Calls `chrono::DateTime::parse_from_rfc3339` and, where it accepts the
/// text, `DateTime::timestamp_micros` on what it returns. Trusted: the result
/// depends on the text alone.
#[verifier::external_body]
pub(crate) fn parse_micros(text: &str) -> (r: Option<i64>)
    ensures
        r == rfc3339_micros(text@),
{
    match chrono::DateTime::parse_from_rfc3339(text) {
        Ok(instant) => Some(instant.timestamp_micros()),
        Err(_) => None,
    }
}

/// Parses both texts with `chrono::DateTime::parse_from_rfc3339`, subtracts
/// the first instant from the second and takes `TimeDelta::num_hours` of the
/// difference. Trusted: the result depends on the two texts alone.
#[verifier::external_body]
pub(crate) fn parse_hours_between(start: &str, end: &str) -> (r: Option<i64>)
    ensures
        r == rfc3339_hours_between(start@, end@),
{
    match (chrono::DateTime::parse_from_rfc3339(start), chrono::DateTime::parse_from_rfc3339(end)) {
        (Ok(from), Ok(to)) => Some((to - from).num_hours()),
        _ => None,
    }
}

} // verus!
