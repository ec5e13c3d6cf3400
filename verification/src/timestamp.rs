//! Reading instants from text, in the time zone of the machine.

use vstd::prelude::*;
use vstd::string::StringExecFns;
use chrono::TimeZone;
use crate::error::Error;
use crate::instant::{Instant, Moment};

verus! {

/// The format that timestamps are read in where none is given: abbreviated
/// weekday, abbreviated month, day of the month padded with a blank, time
/// of day on the 24-hour clock with seconds, and the year in four digits,
/// as in `Fri May 13 03:13:06 2022`.
pub const DEFAULT_FORMAT: &'static str = "%a %b %e %T %Y";

/// Calls `chrono::TimeZone::datetime_from_str` on `chrono::Local`, and
/// hands back the instant it found as whole seconds since the Unix epoch
/// (`DateTime::timestamp`) and the nanoseconds past that second
/// (`DateTime::timestamp_subsec_nanos`), or `None` where chrono refused the
/// text. Which instant a text names depends on the time zone of the
/// machine, so of the instant only this is claimed: the nanoseconds are
/// fewer than two billion, as chrono holds no time of day with more (from
/// one billion on they stand for a leap second). Chrono panics only where
/// the machine's time zone rules cannot be evaluated, whatever the text.
#[verifier::external_body]
#[allow(deprecated)]
fn local_datetime_from_str(text: &str, format: &str) -> (r: Option<(i64, u32)>)
    ensures
        r matches Some(found) ==> found.1 < 2_000_000_000,
{
    match chrono::Local.datetime_from_str(text, format) {
        Ok(found) => Some((found.timestamp(), found.timestamp_subsec_nanos())),
        Err(_) => None,
    }
}

/// Calls `chrono::Local::now`, and hands back the present instant as whole
/// seconds since the Unix epoch and the nanoseconds past that second. Of
/// the instant only this is claimed: the nanoseconds are fewer than two
/// billion, as chrono holds no time of day with more. Chrono panics where
/// the clock of the machine stands before the epoch.
#[verifier::external_body]
fn local_now() -> (r: (i64, u32))
    ensures
        r.1 < 2_000_000_000,
{
    let now = chrono::Local::now();
    (now.timestamp(), now.timestamp_subsec_nanos())
}

/// The format that timestamps are read in: the one given, or the default.
pub open spec fn format_used(format: Option<&str>) -> Seq<char> {
    match format {
        Some(f) => f@,
        None => DEFAULT_FORMAT@,
    }
}

/// The format to read timestamps in: the one given, or the default.
pub fn effective_format<'a>(format: Option<&'a str>) -> (r: &'a str)
    ensures
        r@ == format_used(format),
{
    match format {
        Some(f) => f,
        None => DEFAULT_FORMAT,
    }
}

/// The error for a text that is no timestamp in the format.
fn timestamp_error(text: &str, format: &str) -> (e: Error)
    ensures
        e matches Error::TimestampParseError { text: t, format: f } && t@ == text@ && f@
            == format@,
{
    Error::TimestampParseError { text: String::from_str(text), format: String::from_str(format) }
}

/// What reading a timestamp comes to, given what the calendar library
/// found in `text`: the instant it found, or an error that names the text
/// and the format. What it found is whole seconds since the epoch and the
/// nanoseconds past the second; nanoseconds from one billion on stand for a
/// leap second, and two billion or more are no reading at all.
pub fn instant_or_error(found: Option<(i64, u32)>, text: &str, format: &str) -> (r: Result<
    Instant,
    Error,
>)
    ensures
        match found {
            Some((secs, subsec_nanos)) if subsec_nanos < 2_000_000_000 => r matches Ok(t) && t@
                == Moment::of_parts(secs as int, subsec_nanos as int),
            _ => r matches Err(Error::TimestampParseError { text: t, format: f }) && t@ == text@
                && f@ == format@,
        },
        r matches Ok(t) ==> t@.is_nameable(),
{
    match found {
        Some((secs, subsec_nanos)) => match Instant::from_parts(secs, subsec_nanos) {
            Some(t) => Ok(t),
            None => Err(timestamp_error(text, format)),
        },
        None => Err(timestamp_error(text, format)),
    }
}

/// Reads `text` as a timestamp written in `format`, in the time zone of
/// the machine. No format is guessed: a text that does not match `format`
/// is a `TimestampParseError` that names both. An instant that is read is
/// one that whole seconds in 64 bits and a sub-second part name.
pub fn parse_timestamp(text: &str, format: &str) -> (r: Result<Instant, Error>)
    ensures
        match r {
            Ok(t) => t@.is_nameable(),
            Err(e) => e matches Error::TimestampParseError { text: t, format: f } && t@ == text@
                && f@ == format@,
        },
{
    instant_or_error(local_datetime_from_str(text, format), text, format)
}

/// The instant to compare against, before any offset: `ref_time` read in
/// `format`, or the present instant where no `ref_time` is given. Without
/// a `ref_time` there is always an instant.
pub fn reference_instant(ref_time: Option<&str>, format: &str) -> (r: Result<Instant, Error>)
    ensures
        ref_time is None ==> r is Ok,
        match r {
            Ok(t) => t@.is_nameable(),
            Err(e) => e matches Error::TimestampParseError { text: t, format: f }
                && ref_time matches Some(given) && t@ == given@ && f@ == format@,
        },
{
    match ref_time {
        Some(given) => parse_timestamp(given, format),
        None => {
            let (secs, subsec_nanos) = local_now();
            match Instant::from_parts(secs, subsec_nanos) {
                Some(t) => Ok(t),
                None => vstd::pervasive::unreached(),
            }
        },
    }
}

} // verus!
