//! Writing and reading instants as RFC 3339 dates, by `chrono`.

use chrono::{DateTime, FixedOffset, SecondsFormat, Utc};
use vstd::prelude::*;
use crate::task::Timestamp;

verus! {

/// The date that `DateTime::<Utc>::to_rfc3339` writes for an instant, with the offset
/// `+00:00`; the empty text for an instant that `chrono` cannot hold.
pub uninterp spec fn rfc3339_text(secs: i64, nanos: u32) -> Seq<char>;

/// The date that `DateTime::<Utc>::to_rfc3339_opts` writes for an instant with as many
/// digits of a second as it needs and `Z` for the offset; the empty text for an instant
/// that `chrono` cannot hold.
pub uninterp spec fn rfc3339_zulu_text(secs: i64, nanos: u32) -> Seq<char>;

/// The instant that `chrono` reads from a date, where it reads one.
pub uninterp spec fn parsed_timestamp(text: Seq<char>) -> Option<Timestamp>;

/// Writes an instant as an RFC 3339 date with the offset `+00:00`, by `chrono`.
///
/// Trusted: `DateTime::from_timestamp` and `DateTime::to_rfc3339` are functions of the
/// instant alone.
#[verifier::external_body]
fn write_date(ts: Timestamp) -> (r: String)
    ensures
        r@ == rfc3339_text(ts.secs, ts.nanos),
{
    DateTime::<Utc>::from_timestamp(ts.secs, ts.nanos).map(|d| d.to_rfc3339()).unwrap_or_default()
}

/// Writes an instant as an RFC 3339 date with `Z` for the offset, by `chrono`.
///
/// Trusted: `DateTime::from_timestamp` and `DateTime::to_rfc3339_opts` are functions of
/// the instant alone, and for an instant of the years 1970 to 9999 with less than a second
/// of nanoseconds, `chrono` reads back from the date exactly that instant.
#[verifier::external_body]
fn write_date_zulu(ts: Timestamp) -> (r: String)
    ensures
        r@ == rfc3339_zulu_text(ts.secs, ts.nanos),
        ts.wf() ==> parsed_timestamp(r@) == Some(ts),
{
    DateTime::<Utc>::from_timestamp(ts.secs, ts.nanos)
        .map(|d| d.to_rfc3339_opts(SecondsFormat::AutoSi, true))
        .unwrap_or_default()
}

/// Reads an RFC 3339 date by `chrono`.
///
/// Trusted: the `FromStr` of `DateTime<FixedOffset>` is a function of the text alone; the
/// result is the instant it reads, in whole seconds since the Unix epoch and the
/// nanoseconds within the second, and nothing where it reads none.
#[verifier::external_body]
fn read_date(text: &str) -> (r: Option<Timestamp>)
    ensures
        r == parsed_timestamp(text@),
{
    match text.parse::<DateTime<FixedOffset>>() {
        Ok(d) => Some(Timestamp { secs: d.timestamp(), nanos: d.timestamp_subsec_nanos() }),
        Err(_) => None,
    }
}

/// Writes an instant as an RFC 3339 date with the offset `+00:00`.
pub fn format_rfc3339(ts: Timestamp) -> (r: String)
    ensures
        r@ == rfc3339_text(ts.secs, ts.nanos),
{
    write_date(ts)
}

/// Writes an instant as an RFC 3339 date with `Z` for the offset, as descriptors and
/// event logs hold it. The date of a well-formed instant reads back as that instant.
pub fn format_rfc3339_zulu(ts: Timestamp) -> (r: String)
    ensures
        r@ == rfc3339_zulu_text(ts.secs, ts.nanos),
        ts.wf() ==> parsed_timestamp(r@) == Some(ts),
{
    write_date_zulu(ts)
}

/// Reads an RFC 3339 date.
pub fn parse_rfc3339(text: &str) -> (r: Option<Timestamp>)
    ensures
        r == parsed_timestamp(text@),
{
    read_date(text)
}

} // verus!
