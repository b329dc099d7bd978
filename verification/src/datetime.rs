//! Dates and times, as the date library parses and prints them.
//!
//! Parsing and printing stay with the `chrono` crate; this module holds the
//! thin trusted calls into it, the library's plain model of their results,
//! and the verified decisions taken on them.

use vstd::prelude::*;
use chrono::format::ParseErrorKind;

verus! {

#[verifier::external_type_specification]
#[verifier::external_body]
pub struct ExNaiveDateTime(chrono::NaiveDateTime);

/// Why the date library rejected an input, one variant for each category
/// of parse error that it reports.
#[derive(Debug, Clone, Copy, PartialEq, Eq, Structural)]
pub enum DateParseErrorKind {
    /// A field is out of its permitted range.
    OutOfRange,
    /// No date and time matches the fields given.
    Impossible,
    /// The fields given do not fix a date and time.
    NotEnough,
    /// The input holds characters that the format does not allow.
    Invalid,
    /// The input ended early.
    TooShort,
    /// Input remains after the whole format was read.
    TooLong,
    /// The format string is bad or unsupported.
    BadFormat,
}

/// The text with which the date library displays a parse error of kind `kind`.
pub open spec fn parse_error_text(kind: DateParseErrorKind) -> Seq<char> {
    match kind {
        DateParseErrorKind::OutOfRange => "input is out of range"@,
        DateParseErrorKind::Impossible => "no possible date and time matching input"@,
        DateParseErrorKind::NotEnough => "input is not enough for unique date and time"@,
        DateParseErrorKind::Invalid => "input contains invalid characters"@,
        DateParseErrorKind::TooShort => "premature end of input"@,
        DateParseErrorKind::TooLong => "trailing input"@,
        DateParseErrorKind::BadFormat => "bad or unsupported format string"@,
    }
}

impl DateParseErrorKind {
    /// The text with which the date library displays a parse error of this kind.
    pub fn text(&self) -> (res: String)
        ensures
            res@ == parse_error_text(*self),
    {
        match self {
            DateParseErrorKind::OutOfRange => String::from_str("input is out of range"),
            DateParseErrorKind::Impossible => String::from_str(
                "no possible date and time matching input",
            ),
            DateParseErrorKind::NotEnough => String::from_str(
                "input is not enough for unique date and time",
            ),
            DateParseErrorKind::Invalid => String::from_str("input contains invalid characters"),
            DateParseErrorKind::TooShort => String::from_str("premature end of input"),
            DateParseErrorKind::TooLong => String::from_str("trailing input"),
            DateParseErrorKind::BadFormat => String::from_str("bad or unsupported format string"),
        }
    }
}

/// A date and time without time zone, as the date library parsed it.
/// Its model is the pair (seconds, nanoseconds) that the date and time
/// has as a UTC Unix timestamp, which fixes it exactly.
pub(crate) struct ParsedDateTime {
    secs: i64,
    nanos: u32,
    value: chrono::NaiveDateTime,
}

impl View for ParsedDateTime {
    type V = (i64, u32);

    closed spec fn view(&self) -> (i64, u32) {
        (self.secs, self.nanos)
    }
}

/// What `chrono::NaiveDateTime::parse_from_str(s, fmt)` returns: the parsed
/// date and time as (Unix seconds, nanoseconds), or the kind of its error.
pub uninterp spec fn naive_datetime_parse_from_str(s: Seq<char>, fmt: Seq<char>) -> Result<
    (i64, u32),
    DateParseErrorKind,
>;

/// What the date library prints for the date and time `dt`, given as
/// (Unix seconds, nanoseconds), with the format string `fmt`.
pub uninterp spec fn naive_datetime_format(dt: (i64, u32), fmt: Seq<char>) -> Seq<char>;

/// Whether `secs` seconds from 1970-01-01 00:00:00 UTC lie in the range of
/// dates and times that the date library represents: from
/// -262143-01-01 00:00:00 to 262142-12-31 23:59:59, both included.
pub open spec fn utc_timestamp_representable(secs: i64) -> bool {
    -8_334_601_228_800 <= secs && secs <= 8_210_266_876_799
}

/// The format string of the timestamps kept with stored transactions.
pub open spec fn timestamp_format() -> Seq<char> {
    "%Y-%m-%dT%H:%M:%SZ"@
}

/// Calls `chrono::NaiveDateTime::parse_from_str(s, fmt)`. Claimed: the
/// result is the named parse result of `s` and `fmt`; on success the value
/// is taken as its UTC timestamp, on failure the error's kind is kept.
/// The hidden error kind that chrono keeps for future use, and never
/// returns, is mapped to `BadFormat`.
#[verifier::external_body]
pub(crate) fn parse_naive_datetime(s: &str, fmt: &str) -> (res: Result<ParsedDateTime, DateParseErrorKind>)
    ensures
        naive_datetime_parse_from_str(s@, fmt@) == (match res {
            Ok(dt) => Ok(dt@),
            Err(kind) => Err(kind),
        }),
{
    match chrono::NaiveDateTime::parse_from_str(s, fmt) {
        Ok(v) => Ok(ParsedDateTime { secs: v.and_utc().timestamp(), nanos: v.and_utc().timestamp_subsec_nanos(), value: v }),
        Err(e) => Err(match e.kind() {
            ParseErrorKind::OutOfRange => DateParseErrorKind::OutOfRange,
            ParseErrorKind::Impossible => DateParseErrorKind::Impossible,
            ParseErrorKind::NotEnough => DateParseErrorKind::NotEnough,
            ParseErrorKind::Invalid => DateParseErrorKind::Invalid,
            ParseErrorKind::TooShort => DateParseErrorKind::TooShort,
            ParseErrorKind::TooLong => DateParseErrorKind::TooLong,
            ParseErrorKind::BadFormat => DateParseErrorKind::BadFormat,
            ParseErrorKind::__Nonexhaustive => DateParseErrorKind::BadFormat,
        }),
    }
}

/// Calls `format` on the date and time with `fmt` and renders it to a
/// string. Claimed: the text is the named print of the value with `fmt`.
/// Only the timestamp format is admitted: rendering a format string that
/// the library rejects would panic.
#[verifier::external_body]
pub(crate) fn format_naive_datetime(dt: &ParsedDateTime, fmt: &str) -> (res: String)
    requires
        fmt@ == timestamp_format(),
    ensures
        res@ == naive_datetime_format(dt@, fmt@),
{
    dt.value.format(fmt).to_string()
}

/// Calls `chrono::DateTime::<Utc>::from_timestamp(secs, 0)` and reports
/// whether it gave a value. Claimed: it does exactly when `secs` lies in the
/// library's range of dates, year -262143 to year 262142.
#[verifier::external_body]
pub(crate) fn utc_timestamp_in_range(secs: i64) -> (res: bool)
    ensures
        res == utc_timestamp_representable(secs),
{
    chrono::DateTime::<chrono::Utc>::from_timestamp(secs, 0).is_some()
}

/// The time that transactions of a block are stamped with.
#[derive(Debug, Clone, Copy, PartialEq, Eq, Structural)]
pub enum BlockTimestamp {
    /// The block's own time, in Unix seconds.
    Block(i64),
    /// The block has no usable time: the current time is used.
    Now,
}

/// Chooses the timestamp of a block from its optional block time and
/// whether that time can be represented as a date and time.
pub fn choose_block_timestamp(block_time: Option<i64>, representable: bool) -> (res: BlockTimestamp)
    ensures
        res == (match block_time {
            Some(ts) => if representable { BlockTimestamp::Block(ts) } else { BlockTimestamp::Now },
            None => BlockTimestamp::Now,
        }),
{
    match block_time {
        Some(ts) => if representable { BlockTimestamp::Block(ts) } else { BlockTimestamp::Now },
        None => BlockTimestamp::Now,
    }
}

/// The timestamp of a block: its block time where it has one that the date
/// library can represent, else the current time.
pub fn block_timestamp(block_time: Option<i64>) -> (res: BlockTimestamp)
    ensures
        res == (match block_time {
            Some(ts) => if utc_timestamp_representable(ts) {
                BlockTimestamp::Block(ts)
            } else {
                BlockTimestamp::Now
            },
            None => BlockTimestamp::Now,
        }),
{
    match block_time {
        Some(ts) => {
            let representable = utc_timestamp_in_range(ts);
            choose_block_timestamp(block_time, representable)
        },
        None => BlockTimestamp::Now,
    }
}

} // verus!
