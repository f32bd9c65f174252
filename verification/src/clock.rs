//! Timestamps: RFC 3339 parsing and the current time.

use vstd::prelude::*;

verus! {

/// Milliseconds since the Unix epoch of an RFC 3339 timestamp, or `None`
/// when the text is not RFC 3339.
pub uninterp spec fn rfc3339_millis(text: Seq<char>) -> Option<i64>;

/// `chrono::DateTime::parse_from_rfc3339`, read as epoch milliseconds.
#[verifier::external_body]
pub(crate) fn parse_iso(iso: &str) -> (r: Option<i64>)
    ensures
        r == rfc3339_millis(iso@),
{
    chrono::DateTime::parse_from_rfc3339(iso).ok().map(|d| d.timestamp_millis())
}

/// `chrono::Utc::now().to_rfc3339()`: the current time. Nothing is stated
/// of the text, which depends on the clock.
#[verifier::external_body]
pub(crate) fn now_rfc3339() -> String {
    chrono::Utc::now().to_rfc3339()
}

/// `chrono::Utc::now().to_rfc3339_opts(Secs, true)`: the current time at
/// second precision with a `Z` offset. Nothing is stated of the text,
/// which depends on the clock.
#[verifier::external_body]
pub(crate) fn now_rfc3339_secs() -> String {
    chrono::Utc::now().to_rfc3339_opts(chrono::SecondsFormat::Secs, true)
}

} // verus!
