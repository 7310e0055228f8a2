//! What the small texts say when they are read.

use crate::clock::{
    days_before_month, is_date_of, is_leap, is_report_time, live_time, month_len, report_time,
    time_of_day, year_text, Date, Moment, FIRST_SECOND, LAST_SECOND,
};
use crate::text::{decimal, repeated, right_aligned};
use vstd::prelude::*;

verus! {

/// The number that some decimal digits say when they are read from the left.
pub open spec fn reading(digits: Seq<char>) -> int
    decreases digits.len(),
{
    if digits.len() == 0 {
        0
    } else {
        10 * reading(digits.drop_last()) + (digits.last() as int - '0' as int)
    }
}

/// Whether a text is made of decimal digits.
pub open spec fn all_digits(text: Seq<char>) -> bool {
    forall|i: int| 0 <= i < text.len() ==> '0' <= #[trigger] text[i] <= '9'
}

/// A number in decimal is made of digits, says the number when it is read, and starts with a zero
/// only where it is zero.
pub proof fn lemma_decimal_reads_back(n: nat)
    ensures
        decimal(n).len() > 0,
        all_digits(decimal(n)),
        reading(decimal(n)) == n,
        n > 0 ==> decimal(n)[0] != '0',
        n == 0 ==> decimal(n).len() == 1,
    decreases n,
{
    reveal_with_fuel(reading, 2);
    if n >= 10 {
        lemma_decimal_reads_back(n / 10);
        assert(decimal(n).drop_last() =~= decimal(n / 10));
    } else {
        assert(decimal(n).drop_last() =~= seq![]);
    }
}

/// A right-aligned text ends with the text, has blanks before it, and is as wide as the field or,
/// where the text is longer, as the text.
pub proof fn lemma_right_alignment(s: Seq<char>, width: nat, i: int)
    ensures
        right_aligned(s, width).len() == if s.len() < width {
            width
        } else {
            s.len()
        },
        right_aligned(s, width).skip(right_aligned(s, width).len() - s.len()) == s,
        0 <= i < right_aligned(s, width).len() - s.len() ==> right_aligned(s, width)[i] == ' ',
{
}

/// A repeated character stands in each place, and there are as many places as repetitions.
pub proof fn lemma_repetition(c: char, n: nat, i: int)
    ensures
        repeated(c, n).len() == n,
        0 <= i < n ==> repeated(c, n)[i] == c,
{
}

/// The time of a line, read back: hours, minutes, seconds and milliseconds, separated by colons and
/// a point, are the time since midnight, cut off behind the milliseconds.
pub proof fn lemma_live_time_reads_back(at: Moment)
    requires
        at.valid(),
    ensures
        ({
            let t = live_time(at);
            let hours = reading(t.subrange(0, 2));
            let minutes = reading(t.subrange(3, 5));
            let seconds = reading(t.subrange(6, 8));
            let millis = reading(t.subrange(9, 12));
            &&& t.len() == 12
            &&& t[2] == ':' && t[5] == ':' && t[8] == '.'
            &&& all_digits(t.subrange(0, 2)) && all_digits(t.subrange(3, 5))
            &&& all_digits(t.subrange(6, 8)) && all_digits(t.subrange(9, 12))
            &&& 0 <= hours < 24 && 0 <= minutes < 60 && 0 <= seconds < 60
            &&& 3600 * hours + 60 * minutes + seconds == at.secs as int % 86_400
            &&& millis == at.nanos as int / 1_000_000
        }),
{
    reveal_strlit(":");
    reveal_strlit(".");
    reveal_with_fuel(reading, 4);
    let t = live_time(at);
    lemma_two(t.subrange(0, 2));
    lemma_two(t.subrange(3, 5));
    lemma_two(t.subrange(6, 8));
    lemma_three(t.subrange(9, 12));
}

/// The time of a report: the date, a blank, the same time of day as on a line without its
/// milliseconds, and the time zone.
pub proof fn lemma_report_time_parts(at: Moment, date: Date, text: Seq<char>)
    ensures
        report_time(at, date) == date.text() + " "@ + live_time(at).take(8) + " UTC"@,
        date.text().len() >= 6,
        date.text().take(date.text().len() - 6) == year_text(date.year),
        is_report_time(text, at) <==> exists|d: Date| #[trigger]
            is_date_of(d, at) && text == report_time(at, d),
{
    reveal_strlit(":");
    reveal_strlit(".");
    reveal_strlit("-");
    assert(live_time(at).take(8) =~= time_of_day(at.secs as int));
    assert(date.text().take(date.text().len() - 6) =~= year_text(date.year));
}

/// The month and the day of a date, read back.
pub proof fn lemma_date_reads_back(date: Date)
    requires
        date.valid(),
    ensures
        ({
            let t = date.text().skip(date.text().len() - 6);
            &&& t[0] == '-' && t[3] == '-'
            &&& all_digits(t.subrange(1, 3)) && all_digits(t.subrange(4, 6))
            &&& reading(t.subrange(1, 3)) == date.month
            &&& reading(t.subrange(4, 6)) == date.day
        }),
        0 <= date.year <= 9999 ==> {
            &&& year_text(date.year).len() == 4
            &&& all_digits(year_text(date.year))
            &&& reading(year_text(date.year)) == date.year
        },
        date.year > 9999 ==> {
            &&& year_text(date.year)[0] == '+'
            &&& year_text(date.year).skip(1) == decimal(date.year as nat)
        },
        date.year < 0 ==> {
            &&& year_text(date.year)[0] == '-'
            &&& all_digits(year_text(date.year).skip(1))
            &&& reading(year_text(date.year).skip(1)) == -date.year
            &&& date.year >= -9999 ==> year_text(date.year).len() == 5
            &&& date.year < -9999 ==> year_text(date.year).skip(1) == decimal(
                (-date.year) as nat,
            )
        },
{
    reveal_strlit("-");
    reveal_strlit("+");
    let whole = date.text();
    let t = whole.skip(whole.len() - 6);
    lemma_two(t.subrange(1, 3));
    lemma_two(t.subrange(4, 6));
    let y = year_text(date.year);
    if 0 <= date.year <= 9999 {
        lemma_four(y);
    } else if date.year > 9999 {
        lemma_decimal_reads_back(date.year as nat);
        assert(y.skip(1) =~= decimal(date.year as nat));
    } else if date.year >= -9999 {
        lemma_four(y.skip(1));
    } else {
        lemma_decimal_reads_back((-date.year) as nat);
        assert(y.skip(1) =~= decimal((-date.year) as nat));
    }
}

/// The days are numbered from the first of January 1970 on, one by one: from a day to the next of
/// its month, from the last of a month to the first of the next, and from the last of a year to the
/// first of the next.
pub proof fn lemma_days_are_numbered(year: int, month: int, day: int)
    requires
        1 <= month <= 12,
        1 <= day <= month_len(year, month),
    ensures
        (Date { year: 1970, month: 1, day: 1 }).number() == 0,
        (Date { year, month, day: day + 1 }).number() == (Date { year, month, day }).number() + 1,
        day == month_len(year, month) && month < 12 ==> (Date {
            year,
            month: month + 1,
            day: 1,
        }).number() == (Date { year, month, day }).number() + 1,
        day == 31 && month == 12 ==> (Date { year: year + 1, month: 1, day: 1 }).number() == (
        Date { year, month, day }).number() + 1,
{
    if month < 12 {
        assert(days_before_month(year, month + 1) == days_before_month(year, month) + month_len(
            year,
            month,
        ));
    } else {
        lemma_december(year);
    }
}

/// December starts with 334 days of the year behind it, in a leap year with 335.
proof fn lemma_december(year: int)
    ensures
        days_before_month(year, 12) == if is_leap(year) {
            335int
        } else {
            334int
        },
{
    reveal_with_fuel(days_before_month, 12);
}

/// The months have 31 days, but April, June, September and November 30, and February 28 or, in a
/// leap year, 29: each fourth year but the full centuries that 400 does not divide.
pub proof fn lemma_months_of_the_year(year: int, month: int, date: Date, at: Moment)
    ensures
        month_len(year, month) == 31 || month == 2 || month == 4 || month == 6 || month == 9
            || month == 11,
        month_len(year, 4) == 30 && month_len(year, 6) == 30,
        month_len(year, 9) == 30 && month_len(year, 11) == 30,
        month_len(year, 2) == 29 <==> year % 400 == 0 || (year % 4 == 0 && year % 100 != 0),
        month_len(year, 2) == 28 || month_len(year, 2) == 29,
        date.valid() <==> 1 <= date.month <= 12 && 1 <= date.day <= month_len(
            date.year,
            date.month,
        ),
        is_date_of(date, at) <==> date.valid() && date.number() * 86_400 <= at.secs
            < date.number() * 86_400 + 86_400,
        is_leap(year) <==> month_len(year, 2) == 29,
{
}

/// The calendar reaches from the start of the year -262143 to the end of the year 262142.
pub proof fn lemma_ends_of_the_calendar(at: Moment)
    ensures
        (Date { year: -262_143, month: 1, day: 1 }).number() * 86_400 == FIRST_SECOND,
        (Date { year: 262_143, month: 1, day: 1 }).number() * 86_400 == LAST_SECOND + 1,
        at.valid() <==> FIRST_SECOND <= at.secs <= LAST_SECOND && at.nanos < 1_000_000_000,
{
}

/// Two digits, read.
proof fn lemma_two(t: Seq<char>)
    requires
        t.len() == 2,
    ensures
        reading(t) == 10 * (t[0] as int - 48) + (t[1] as int - 48),
{
    reveal_with_fuel(reading, 3);
    assert(t.drop_last().drop_last() =~= seq![]);
}

/// Three digits, read.
proof fn lemma_three(t: Seq<char>)
    requires
        t.len() == 3,
    ensures
        reading(t) == 100 * (t[0] as int - 48) + 10 * (t[1] as int - 48) + (t[2] as int - 48),
{
    lemma_two(t.drop_last());
}

/// Four digits, read.
proof fn lemma_four(t: Seq<char>)
    requires
        t.len() == 4,
    ensures
        reading(t) == 1000 * (t[0] as int - 48) + 100 * (t[1] as int - 48) + 10 * (t[2] as int - 48)
            + (t[3] as int - 48),
{
    lemma_three(t.drop_last());
}

} // verus!
