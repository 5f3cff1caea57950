//! Conversions between RFC 3339 text and epoch milliseconds, through chrono.

use vstd::prelude::*;

verus! {

/// The instant that an RFC 3339 date-time denotes, in milliseconds since the
/// Unix epoch; `None` when the text is not an RFC 3339 date-time.
pub uninterp spec fn rfc3339_millis(s: Seq<char>) -> Option<i64>;

/// The RFC 3339 text, in UTC, of an instant given in milliseconds since the
/// Unix epoch (the epoch itself when the instant is out of chrono's range).
pub uninterp spec fn rfc3339_text(ms: i64) -> Seq<char>;

/// Relies on `chrono::DateTime::parse_from_rfc3339` and
/// `DateTime::timestamp_millis`: the parse depends on the text alone.
#[verifier::external_body]
pub(crate) fn parse_rfc3339_millis(s: &str) -> (r: Option<i64>)
    ensures
        r == rfc3339_millis(s@),
{
    chrono::DateTime::parse_from_rfc3339(s).ok().map(|d| d.timestamp_millis())
}

/// Relies on `chrono::DateTime::from_timestamp_millis` (defaulting to the
/// epoch when out of range) and `DateTime::to_rfc3339`: the text depends on
/// the number alone.
#[verifier::external_body]
pub(crate) fn format_rfc3339(ms: i64) -> (r: String)
    ensures
        r@ == rfc3339_text(ms),
{
    chrono::DateTime::from_timestamp_millis(ms).unwrap_or_default().to_rfc3339()
}

} // verus!
