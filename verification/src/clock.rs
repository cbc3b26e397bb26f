//! Wall-clock time, through `chrono`.
use vstd::prelude::*;
use chrono::{DateTime, Utc};

verus! {

/// Whether `chrono::DateTime::parse_from_rfc3339` accepts the text.
pub uninterp spec fn rfc3339_parses(s: Seq<char>) -> bool;

/// `chrono::Utc::now()` written with `to_rfc3339`.  Which time it gives
/// depends on the clock; the text is one that `parse_from_rfc3339` reads
/// back.
#[verifier::external_body]
pub(crate) fn now_rfc3339() -> (r: String)
    ensures
        rfc3339_parses(r@),
{
    Utc::now().to_rfc3339()
}

/// `chrono::DateTime::parse_from_rfc3339`, then
/// `Utc::now().signed_duration_since(t).num_hours()`: the whole hours from
/// the parsed time to now, truncated toward zero.  Whether the text parses
/// is named by `rfc3339_parses`; the number of hours depends on the clock
/// and nothing is promised of it.
#[verifier::external_body]
pub(crate) fn hours_since_rfc3339(s: &str) -> (r: Option<i64>)
    ensures
        r is Some == rfc3339_parses(s@),
{
    DateTime::parse_from_rfc3339(s).ok().map(|t| Utc::now().signed_duration_since(t).num_hours())
}

} // verus!
