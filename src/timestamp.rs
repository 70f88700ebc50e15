use vstd::prelude::*;
use chrono::DateTime;
use crate::models::ConvertError;

verus! {

/// The instant that `text` denotes when read under the strftime layout `layout`,
/// in microseconds since the Unix epoch, or `None` where the text does not follow
/// that layout.
pub uninterp spec fn micros_under_layout(text: Seq<char>, layout: Seq<char>) -> Option<i64>;

/// The instant that a timestamp written `YYYY-MM-DD HH:MM:SS.ffffff ±HHMM` denotes,
/// in microseconds since the Unix epoch, or `None` where the text does not follow
/// that layout.
pub open spec fn micros_of_timestamp(text: Seq<char>) -> Option<i64> {
    micros_under_layout(text, TIMESTAMP_LAYOUT@)
}

/// The layout that log timestamps follow, in chrono's strftime notation.
pub const TIMESTAMP_LAYOUT: &'static str = "%Y-%m-%d %H:%M:%S%.f %z";

/// Relies on chrono's `DateTime::parse_from_str` to read `text` under `layout`,
/// and on `DateTime::timestamp_micros` to turn the parsed instant into
/// microseconds since the epoch. The outcome depends on the two strings alone.
#[verifier::external_body]
fn parse_micros(text: &str, layout: &str) -> (r: Option<i64>)
    ensures
        r == micros_under_layout(text@, layout@),
{
    DateTime::parse_from_str(text, layout).ok().map(|dt| dt.timestamp_micros())
}

/// Parses one log timestamp to microseconds since the epoch.
///
/// Fails with `MalformedTimestamp` holding the raw text exactly when the text does
/// not follow the fixed layout.
pub fn parse_timestamp(text: &str) -> (r: Result<i64, ConvertError>)
    ensures
        match micros_of_timestamp(text@) {
            Some(us) => r == Ok::<i64, ConvertError>(us),
            None => r matches Err(ConvertError::MalformedTimestamp(raw)) && raw@ == text@,
        },
{
    match parse_micros(text, TIMESTAMP_LAYOUT) {
        Some(us) => Ok(us),
        None => Err(ConvertError::MalformedTimestamp(String::from_str(text))),
    }
}

} // verus!
