//! Calendar dates. A date is held as its year, month and day; its ISO 8601
//! text is written and read by `chrono`.

use crate::decimal::{is_digit, lemma_zero_padded, zero_padded};
use chrono::Datelike;
use vstd::prelude::*;

verus! {

/// The first year that a date can lie in.
pub const MIN_YEAR: i32 = -262_143;

/// The last year that a date can lie in.
pub const MAX_YEAR: i32 = 262_142;

/// Whether `year` has a 29th of February in the proleptic Gregorian calendar.
pub open spec fn is_leap_year(year: int) -> bool {
    year % 4 == 0 && (year % 100 != 0 || year % 400 == 0)
}

/// The number of days of `month` in `year`.
pub open spec fn days_in_month(year: int, month: int) -> int {
    if month == 2 {
        if is_leap_year(year) {
            29
        } else {
            28
        }
    } else if month == 4 || month == 6 || month == 9 || month == 11 {
        30
    } else {
        31
    }
}

/// Whether the calendar has the day `day` of `month` in `year`, and the year
/// is one that a date can lie in.
pub open spec fn is_calendar_day(year: int, month: int, day: int) -> bool {
    &&& MIN_YEAR <= year <= MAX_YEAR
    &&& 1 <= month <= 12
    &&& 1 <= day <= days_in_month(year, month)
}

/// A day of the proleptic Gregorian calendar. Every value is a day that the
/// calendar has.
#[derive(Clone, Copy, Debug, PartialEq, Eq, Structural)]
pub struct Date {
    year: i32,
    month: u32,
    day: u32,
}

/// The date that the text `text` writes, as `chrono` reads it with the
/// format `%Y-%m-%d`; none where `chrono` rejects the text.
pub uninterp spec fn iso_date_of(text: Seq<char>) -> Option<Date>;

/// How a year is written: four digits for the years 0 to 9999, else a sign
/// and at least four digits.
pub open spec fn year_text(year: int) -> Seq<char> {
    if 0 <= year <= 9999 {
        zero_padded(year as nat, 4)
    } else if year < 0 {
        seq!['-'] + zero_padded((-year) as nat, 4)
    } else {
        seq!['+'] + zero_padded(year as nat, 4)
    }
}

/// The ISO 8601 text of `date`: year, month and day, joined by hyphens, the
/// month and the day with two digits each.
pub open spec fn iso_text(date: Date) -> Seq<char> {
    year_text(date.year() as int) + seq!['-'] + zero_padded(date.month() as nat, 2) + seq!['-']
        + zero_padded(date.day() as nat, 2)
}

/// Whether `c` can occur in the text of a date: a digit, a hyphen or a plus
/// sign.
pub open spec fn is_date_char(c: char) -> bool {
    is_digit(c) || c == '-' || c == '+'
}

/// Whether `chrono` reads the text of `date` back as `date`.
pub open spec fn reads_back(date: Date) -> bool {
    iso_date_of(iso_text(date)) == Some(date)
}

impl Date {
    #[verifier::type_invariant]
    spec fn is_on_calendar(self) -> bool {
        is_calendar_day(self.year as int, self.month as int, self.day as int)
    }

    /// The year of this date.
    pub closed spec fn spec_year(&self) -> i32 {
        self.year
    }

    /// The month of this date, 1 to 12.
    pub closed spec fn spec_month(&self) -> u32 {
        self.month
    }

    /// The day of the month of this date, from 1.
    pub closed spec fn spec_day(&self) -> u32 {
        self.day
    }

    /// The first of January 1970.
    pub closed spec fn spec_epoch() -> Date {
        Date { year: 1970, month: 1, day: 1 }
    }

    /// Whether this date is a day that the calendar has. It holds of every
    /// date that a program has in hand.
    pub open spec fn well_formed(&self) -> bool {
        is_calendar_day(self.year() as int, self.month() as int, self.day() as int)
    }

    /// A date is determined by its year, month and day.
    pub proof fn lemma_same_day(a: Date, b: Date)
        requires
            a.year() == b.year(),
            a.month() == b.month(),
            a.day() == b.day(),
        ensures
            a == b,
    {
    }

    /// The date `day` of `month` in `year`, if the calendar has that day.
    pub fn new(year: i32, month: u32, day: u32) -> (r: Option<Date>)
        ensures
            r is Some <==> is_calendar_day(year as int, month as int, day as int),
            r matches Some(d) ==> d.year() == year && d.month() == month && d.day() == day,
    {
        if year < MIN_YEAR || year > MAX_YEAR || month < 1 || month > 12 || day < 1 {
            return None;
        }
        if day > last_day(year, month) {
            return None;
        }
        Some(Date { year, month, day })
    }

    /// The first of January 1970, which stands in for a date that cannot be
    /// read.
    #[verifier::when_used_as_spec(spec_epoch)]
    pub fn epoch() -> (d: Date)
        ensures
            d == Date::epoch(),
            d.year() == 1970,
            d.month() == 1,
            d.day() == 1,
    {
        Date { year: 1970, month: 1, day: 1 }
    }

    /// The year of this date.
    #[verifier::when_used_as_spec(spec_year)]
    pub fn year(&self) -> (y: i32)
        ensures
            y == self.year(),
            self.well_formed(),
    {
        proof {
            use_type_invariant(self);
        }
        self.year
    }

    /// The month of this date, 1 to 12.
    #[verifier::when_used_as_spec(spec_month)]
    pub fn month(&self) -> (m: u32)
        ensures
            m == self.month(),
            self.well_formed(),
    {
        proof {
            use_type_invariant(self);
        }
        self.month
    }

    /// The day of the month of this date, from 1.
    #[verifier::when_used_as_spec(spec_day)]
    pub fn day(&self) -> (d: u32)
        ensures
            d == self.day(),
            self.well_formed(),
    {
        proof {
            use_type_invariant(self);
        }
        self.day
    }

    /// Reads a date from its ISO 8601 text, as `chrono` does with the format
    /// `%Y-%m-%d`.
    pub fn parse_iso(text: &str) -> (r: Option<Date>)
        ensures
            r == iso_date_of(text@),
            r matches Some(d) ==> d.well_formed(),
    {
        chrono_parse(text)
    }

    /// The ISO 8601 text of this date. It is text that `parse_iso` reads
    /// back as this date.
    pub fn to_iso(&self) -> (text: String)
        ensures
            text@ == iso_text(*self),
            reads_back(*self),
            self.well_formed(),
    {
        proof {
            use_type_invariant(self);
        }
        chrono_format(self)
    }
}

/// A year is a leap year exactly if the year 262400 years later is one:
/// leap years repeat every 400 years.
proof fn lemma_leap_years_repeat(year: int)
    ensures
        is_leap_year(year) == is_leap_year(year + 262_400),
{
    assert((year + 262_400) % 4 == year % 4);
    assert((year + 262_400) % 100 == year % 100);
    assert((year + 262_400) % 400 == year % 400);
}

/// Tells whether `year` is a leap year.
fn is_leap(year: i32) -> (leap: bool)
    requires
        MIN_YEAR <= year <= MAX_YEAR,
    ensures
        leap == is_leap_year(year as int),
{
    let shifted: u32 = (year + 262_400) as u32;
    proof {
        lemma_leap_years_repeat(year as int);
    }
    shifted % 4 == 0 && (shifted % 100 != 0 || shifted % 400 == 0)
}

/// The number of days of `month` in `year`.
fn last_day(year: i32, month: u32) -> (last: u32)
    requires
        MIN_YEAR <= year <= MAX_YEAR,
        1 <= month <= 12,
    ensures
        last == days_in_month(year as int, month as int),
{
    if month == 2 {
        if is_leap(year) {
            29
        } else {
            28
        }
    } else if month == 4 || month == 6 || month == 9 || month == 11 {
        30
    } else {
        31
    }
}

/// The text of a date holds only digits, hyphens and a plus sign.
pub proof fn lemma_iso_text_chars(date: Date)
    ensures
        forall|i: int| 0 <= i < iso_text(date).len() ==> is_date_char(#[trigger] iso_text(date)[i]),
        iso_text(date).len() >= 1,
{
    let y = date.year() as int;
    lemma_zero_padded(
        (if y < 0 {
            -y
        } else {
            y
        }) as nat,
        4,
    );
    lemma_zero_padded(date.month() as nat, 2);
    lemma_zero_padded(date.day() as nat, 2);
}

/// Calls `chrono::NaiveDate::parse_from_str` with the format `%Y-%m-%d` and
/// hands back the year, month and day of the date it read. Trusted: the
/// result is what `chrono` makes of the text, and a date that `chrono` read
/// is a day that the calendar has.
#[verifier::external_body]
fn chrono_parse(text: &str) -> (r: Option<Date>)
    ensures
        r == iso_date_of(text@),
        r matches Some(d) ==> d.well_formed(),
{
    match chrono::NaiveDate::parse_from_str(text, "%Y-%m-%d") {
        Ok(d) => Some(Date { year: d.year(), month: d.month(), day: d.day() }),
        Err(_) => None,
    }
}

/// Makes the `chrono::NaiveDate` of `date` with `from_ymd_opt` and writes it
/// with its `Display`. Trusted: `chrono` has every day of the calendar in
/// the years that a date can lie in; it writes the year, the month and the
/// day as `iso_text` says; and, as its documentation states, what it writes
/// it parses back to the same date.
#[verifier::external_body]
fn chrono_format(date: &Date) -> (text: String)
    requires
        date.well_formed(),
    ensures
        text@ == iso_text(*date),
        iso_date_of(text@) == Some(*date),
{
    match chrono::NaiveDate::from_ymd_opt(date.year, date.month, date.day) {
        Some(d) => d.to_string(),
        None => String::new(),
    }
}

} // verus!
