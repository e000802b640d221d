//! Calendar days as the solver writes them.

use chrono::format::ParseErrorKind;
use chrono::{Datelike, NaiveDate};
use vstd::prelude::*;

verus! {

/// A calendar day, held as the three numbers of its proleptic Gregorian date.
#[derive(Clone, Copy, Debug, PartialEq, Eq, Structural)]
pub struct Day {
    pub year: i32,
    pub month: u32,
    pub day: u32,
}

impl Day {
    /// Whether this day comes before another in the calendar.
    pub open spec fn precedes(self, other: Day) -> bool {
        self.year < other.year || (self.year == other.year && (self.month < other.month || (
        self.month == other.month && self.day < other.day)))
    }

    /// Whether this day comes before another in the calendar.
    pub fn is_before(&self, other: &Day) -> (before: bool)
        ensures
            before == self.precedes(*other),
    {
        self.year < other.year || (self.year == other.year && (self.month < other.month || (
        self.month == other.month && self.day < other.day)))
    }
}

/// Why a text was not read as a day.
#[derive(Clone, Copy, Debug, PartialEq, Eq, Structural)]
pub enum DateErrorKind {
    /// A field is outside its permitted range.
    OutOfRange,
    /// No date has the given fields.
    Impossible,
    /// The fields do not determine a date.
    NotEnough,
    /// A character does not fit the format.
    Invalid,
    /// The text ends before the format does.
    TooShort,
    /// The text goes on after the format has ended.
    TooLong,
    /// The format itself is not understood.
    BadFormat,
}

/// What `chrono::NaiveDate::parse_from_str` returns for a text and a
/// strftime format: year, month and day of the date read, or the kind of
/// its parse error.
pub uninterp spec fn parsed_date(text: Seq<char>, format: Seq<char>) -> Result<
    (i32, u32, u32),
    DateErrorKind,
>;

/// Calls `chrono::NaiveDate::parse_from_str`. The call reads nothing but its
/// two arguments, so its outcome is named `parsed_date`; a date comes back
/// as its year, month and day, an error as its kind. A kind that this
/// library does not know by name comes back as `BadFormat`.
#[verifier::external_body]
fn parse_date_as(text: &str, format: &str) -> (r: Result<(i32, u32, u32), DateErrorKind>)
    ensures
        r == parsed_date(text@, format@),
{
    match NaiveDate::parse_from_str(text, format) {
        Ok(d) => Ok((d.year(), d.month(), d.day())),
        Err(e) => Err(match e.kind() {
            ParseErrorKind::OutOfRange => DateErrorKind::OutOfRange,
            ParseErrorKind::Impossible => DateErrorKind::Impossible,
            ParseErrorKind::NotEnough => DateErrorKind::NotEnough,
            ParseErrorKind::Invalid => DateErrorKind::Invalid,
            ParseErrorKind::TooShort => DateErrorKind::TooShort,
            ParseErrorKind::TooLong => DateErrorKind::TooLong,
            _ => DateErrorKind::BadFormat,
        }),
    }
}

/// The format with dashes, `2024-03-09`.
pub open spec fn dashed_format() -> Seq<char> {
    "%Y-%m-%d"@
}

/// The format with slashes, `2024/03/09`.
pub open spec fn slashed_format() -> Seq<char> {
    "%Y/%m/%d"@
}

/// The day that two readings of one text give: the first where it is a
/// date, else the second; when both fail, the failure of the second.
pub open spec fn picked(
    dashed: Result<(i32, u32, u32), DateErrorKind>,
    slashed: Result<(i32, u32, u32), DateErrorKind>,
) -> Result<Day, DateErrorKind> {
    match dashed {
        Ok(d) => Ok(Day { year: d.0, month: d.1, day: d.2 }),
        Err(_) => match slashed {
            Ok(d) => Ok(Day { year: d.0, month: d.1, day: d.2 }),
            Err(kind) => Err(kind),
        },
    }
}

/// The day that a text stands for: read with dashes first, then with
/// slashes; when both fail, the failure of the second reading is reported.
pub open spec fn day_of_text(text: Seq<char>) -> Result<Day, DateErrorKind> {
    picked(parsed_date(text, dashed_format()), parsed_date(text, slashed_format()))
}

/// Picks the day out of the two readings of one text.
pub fn choose_reading(
    dashed: Result<(i32, u32, u32), DateErrorKind>,
    slashed: Result<(i32, u32, u32), DateErrorKind>,
) -> (r: Result<Day, DateErrorKind>)
    ensures
        r == picked(dashed, slashed),
{
    match dashed {
        Ok(d) => Ok(Day { year: d.0, month: d.1, day: d.2 }),
        Err(_) => match slashed {
            Ok(d) => Ok(Day { year: d.0, month: d.1, day: d.2 }),
            Err(kind) => Err(kind),
        },
    }
}

/// Reads a day written as `YYYY-MM-DD` or `YYYY/MM/DD`.
pub fn parse_day(s: &str) -> (r: Result<Day, DateErrorKind>)
    ensures
        r == day_of_text(s@),
{
    let dashed = parse_date_as(s, "%Y-%m-%d");
    match dashed {
        Ok(_) => choose_reading(dashed, dashed),
        Err(_) => choose_reading(dashed, parse_date_as(s, "%Y/%m/%d")),
    }
}

impl DateErrorKind {
    /// The words that describe the failure.
    pub open spec fn text(self) -> Seq<char> {
        match self {
            DateErrorKind::OutOfRange => "input is out of range"@,
            DateErrorKind::Impossible => "no possible date and time matching input"@,
            DateErrorKind::NotEnough => "input is not enough for unique date and time"@,
            DateErrorKind::Invalid => "input contains invalid characters"@,
            DateErrorKind::TooShort => "premature end of input"@,
            DateErrorKind::TooLong => "trailing input"@,
            DateErrorKind::BadFormat => "bad or unsupported format string"@,
        }
    }

    /// Describes the failure in words.
    pub fn describe(&self) -> (words: &'static str)
        ensures
            words@ == self.text(),
    {
        match self {
            DateErrorKind::OutOfRange => "input is out of range",
            DateErrorKind::Impossible => "no possible date and time matching input",
            DateErrorKind::NotEnough => "input is not enough for unique date and time",
            DateErrorKind::Invalid => "input contains invalid characters",
            DateErrorKind::TooShort => "premature end of input",
            DateErrorKind::TooLong => "trailing input",
            DateErrorKind::BadFormat => "bad or unsupported format string",
        }
    }
}

} // verus!
