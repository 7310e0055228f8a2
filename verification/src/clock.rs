//! UTC times as text.

use crate::text::{decimal, digit};
use vstd::prelude::*;

verus! {

/// The first second that the calendar holds, counted from the start of 1970.
pub const FIRST_SECOND: i64 = -8_334_601_228_800;

/// The last second that the calendar holds, counted from the start of 1970.
pub const LAST_SECOND: i64 = 8_210_266_876_799;

/// A point in time: seconds since the start of 1970 in UTC, and nanoseconds in that second.
#[derive(Clone, Copy, Debug, PartialEq, Eq)]
pub struct Moment {
    pub secs: i64,
    pub nanos: u32,
}

impl Moment {
    /// Whether the calendar holds the moment.
    pub open spec fn valid(self) -> bool {
        FIRST_SECOND <= self.secs <= LAST_SECOND && self.nanos < 1_000_000_000
    }

    /// Whether the calendar holds the moment.
    pub fn is_valid(&self) -> (r: bool)
        ensures
            r == self.valid(),
    {
        FIRST_SECOND <= self.secs && self.secs <= LAST_SECOND && self.nanos < 1_000_000_000
    }
}

/// A number below 100 with two digits.
pub open spec fn two_digits(n: int) -> Seq<char> {
    seq![digit(n / 10), digit(n % 10)]
}

/// A number below 1000 with three digits.
pub open spec fn three_digits(n: int) -> Seq<char> {
    seq![digit(n / 100), digit(n / 10 % 10), digit(n % 10)]
}

/// Hours, minutes and seconds of the day, separated by colons.
pub open spec fn time_of_day(secs: int) -> Seq<char> {
    two_digits(secs % 86_400 / 3_600) + ":"@ + two_digits(secs % 3_600 / 60) + ":"@ + two_digits(
        secs % 60,
    )
}

/// Whether a year has a leap day.
pub open spec fn is_leap(year: int) -> bool {
    year % 4 == 0 && (year % 100 != 0 || year % 400 == 0)
}

/// The number of days in a month.
pub open spec fn month_len(year: int, month: int) -> int {
    if month == 2 {
        if is_leap(year) {
            29
        } else {
            28
        }
    } else if month == 4 || month == 6 || month == 9 || month == 11 {
        30
    } else {
        31
    }
}

/// The number of days of a year before a month.
pub open spec fn days_before_month(year: int, month: int) -> int
    decreases month,
{
    if month <= 1 {
        0
    } else {
        days_before_month(year, month - 1) + month_len(year, month - 1)
    }
}

/// The number of leap days up to the end of a year, counted from the year zero.
pub open spec fn leap_days(year: int) -> int {
    year / 4 - year / 100 + year / 400
}

/// The number of days from the start of 1970 to the start of a year.
pub open spec fn days_before_year(year: int) -> int {
    365 * (year - 1970) + leap_days(year - 1) - leap_days(1969)
}

/// A date of the Gregorian calendar, which is taken to hold for all years.
pub struct Date {
    pub year: int,
    pub month: int,
    pub day: int,
}

impl Date {
    /// Whether there is such a date.
    pub open spec fn valid(self) -> bool {
        1 <= self.month <= 12 && 1 <= self.day <= month_len(self.year, self.month)
    }

    /// Whether a date lies before another.
    pub open spec fn precedes(self, other: Date) -> bool {
        ||| self.year < other.year
        ||| self.year == other.year && self.month < other.month
        ||| self.year == other.year && self.month == other.month && self.day < other.day
    }

    /// The number of days from the start of 1970 to the date.
    pub open spec fn number(self) -> int {
        days_before_year(self.year) + days_before_month(self.year, self.month) + self.day - 1
    }

    /// Year, month and day, separated by hyphens.
    pub open spec fn text(self) -> Seq<char> {
        year_text(self.year) + "-"@ + two_digits(self.month) + "-"@ + two_digits(self.day)
    }
}

/// A number below 10000 with four digits.
pub open spec fn four_digits(n: int) -> Seq<char> {
    two_digits(n / 100) + two_digits(n % 100)
}

/// A year with at least four digits; outside the years 0 to 9999 it has a sign.
pub open spec fn year_text(year: int) -> Seq<char> {
    if 0 <= year <= 9999 {
        four_digits(year)
    } else if year > 9999 {
        "+"@ + decimal(year as nat)
    } else if year >= -9999 {
        "-"@ + four_digits(-year)
    } else {
        "-"@ + decimal((-year) as nat)
    }
}

/// The text of a line's time: the time of day with milliseconds.
pub open spec fn live_time(at: Moment) -> Seq<char> {
    time_of_day(at.secs as int) + "."@ + three_digits(at.nanos as int / 1_000_000)
}

/// The text of a report's time, given its date: date, time of day and time zone.
pub open spec fn report_time(at: Moment, date: Date) -> Seq<char> {
    date.text() + " "@ + time_of_day(at.secs as int) + " UTC"@
}

/// Whether a date is that of a moment.
pub open spec fn is_date_of(date: Date, at: Moment) -> bool {
    date.valid() && date.number() == at.secs as int / 86_400
}

/// Whether a text is that of a report's time.
pub open spec fn is_report_time(text: Seq<char>, at: Moment) -> bool {
    exists|date: Date| #[trigger] is_date_of(date, at) && text == report_time(at, date)
}

/// Makes a UTC time with `chrono::DateTime::from_timestamp` and writes it by a pattern with
/// `chrono::DateTime::format`. Of the two patterns that are admitted, the first gives the time of
/// day with milliseconds, cut off behind the third digit; the second gives the date in the
/// Gregorian calendar and the time of day.
#[verifier::external_body]
fn format_utc(secs: i64, nanos: u32, pattern: &str) -> (r: String)
    requires
        (Moment { secs, nanos }).valid(),
        pattern@ == "%H:%M:%S%.3f"@ || pattern@ == "%Y-%m-%d %H:%M:%S UTC"@,
    ensures
        pattern@ == "%H:%M:%S%.3f"@ ==> r@ == live_time(Moment { secs, nanos }),
        pattern@ == "%Y-%m-%d %H:%M:%S UTC"@ ==> is_report_time(r@, Moment { secs, nanos }),
{
    let at = chrono::DateTime::<chrono::Utc>::from_timestamp(secs, nanos).unwrap();
    at.format(pattern).to_string()
}

/// The text of a line's time.
pub fn live_time_text(at: Moment) -> (r: String)
    requires
        at.valid(),
    ensures
        r@ == live_time(at),
{
    format_utc(at.secs, at.nanos, "%H:%M:%S%.3f")
}

/// The text of a report's time.
pub fn report_time_text(at: Moment) -> (r: String)
    requires
        at.valid(),
    ensures
        is_report_time(r@, at),
{
    format_utc(at.secs, at.nanos, "%Y-%m-%d %H:%M:%S UTC")
}

/// A moment has one date.
pub proof fn lemma_one_date(a: Date, b: Date, at: Moment)
    requires
        is_date_of(a, at),
        is_date_of(b, at),
    ensures
        a == b,
{
    if a.precedes(b) {
        lemma_dates_ascend(a, b);
    } else if b.precedes(a) {
        lemma_dates_ascend(b, a);
    }
}

/// A later date has a larger number.
pub proof fn lemma_dates_ascend(a: Date, b: Date)
    requires
        a.valid(),
        b.valid(),
        a.precedes(b),
    ensures
        a.number() < b.number(),
{
    lemma_date_in_year(a);
    lemma_date_in_year(b);
    if a.year < b.year {
        lemma_years_ascend(a.year, b.year);
    } else if a.month < b.month {
        lemma_months_ascend(a.year, a.month, b.month);
    }
}

/// A year ends before any later year starts.
proof fn lemma_years_ascend(year: int, later: int)
    requires
        year < later,
    ensures
        days_before_year(year) + (if is_leap(year) {
            366int
        } else {
            365int
        }) <= days_before_year(later),
    decreases later - year,
{
    if year + 1 < later {
        lemma_years_ascend(year, later - 1);
    }
}

/// A month ends before any later month of its year starts.
proof fn lemma_months_ascend(year: int, month: int, later: int)
    requires
        1 <= month < later,
    ensures
        days_before_month(year, month) + month_len(year, month) <= days_before_month(year, later),
    decreases later - month,
{
    if month + 1 < later {
        lemma_months_ascend(year, month, later - 1);
    }
}

/// A date lies in its year.
proof fn lemma_date_in_year(date: Date)
    requires
        date.valid(),
    ensures
        days_before_year(date.year) <= date.number() < days_before_year(date.year) + (if is_leap(
            date.year,
        ) {
            366int
        } else {
            365int
        }),
{
    reveal_with_fuel(days_before_month, 14);
    lemma_months_ascend(date.year, date.month, 13);
    if date.month > 1 {
        lemma_months_ascend(date.year, 1, date.month);
    }
}

} // verus!
