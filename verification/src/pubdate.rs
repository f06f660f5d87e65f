//! Publish dates: RFC 2822 date-time strings read as Unix epoch seconds.

use vstd::prelude::*;

verus! {

/// The error that chrono's parsers return; carried through, never read.
#[verifier::external_type_specification]
#[verifier::external_body]
pub struct ExParseError(chrono::ParseError);

/// The instant that `chrono::DateTime::parse_from_rfc2822` reads from the
/// characters `s`, in seconds since the Unix epoch; `None` where it rejects
/// them.
pub uninterp spec fn rfc2822_epoch(s: Seq<char>) -> Option<i64>;

/// What is known of an item's publish date.
#[derive(Clone, Copy, Debug, PartialEq, Eq, Structural)]
pub enum PubDate {
    /// The item carries no publish date.
    Missing,
    /// The item's publish date is not an RFC 2822 date-time.
    Unparsable,
    /// The publish instant, in seconds since the Unix epoch.
    At(i64),
}

/// The publish date that the optional date string `date` stands for.
pub open spec fn pub_date_of(date: Option<Seq<char>>) -> PubDate {
    match date {
        None => PubDate::Missing,
        Some(d) => match rfc2822_epoch(d) {
            None => PubDate::Unparsable,
            Some(t) => PubDate::At(t),
        },
    }
}

/// Trusted: calls `chrono::DateTime::parse_from_rfc2822` and, on success,
/// `DateTime::timestamp` on what it returned. The outcome is taken to depend
/// on the characters of `s` alone: it is `Ok` with the epoch seconds exactly
/// where `rfc2822_epoch` is `Some` of them. The grammar itself is not stated.
#[verifier::external_body]
pub(crate) fn parse_rfc2822(s: &str) -> (r: Result<i64, chrono::ParseError>)
    ensures
        match r {
            Ok(t) => rfc2822_epoch(s@) == Some(t),
            Err(_) => rfc2822_epoch(s@) is None,
        },
{
    match chrono::DateTime::parse_from_rfc2822(s) {
        Ok(instant) => Ok(instant.timestamp()),
        Err(e) => Err(e),
    }
}

/// Reads an optional RFC 2822 date string.
pub fn read_pub_date(date: &Option<String>) -> (r: PubDate)
    ensures
        r == pub_date_of(date.deep_view()),
{
    match date {
        None => PubDate::Missing,
        Some(d) => match parse_rfc2822(d.as_str()) {
            Ok(t) => PubDate::At(t),
            Err(_) => PubDate::Unparsable,
        },
    }
}

/// Whether the instant `epoch` lies strictly after `cutoff`.
pub fn is_after(epoch: i64, cutoff: i64) -> (b: bool)
    ensures
        b == (epoch > cutoff),
{
    epoch > cutoff
}

} // verus!
