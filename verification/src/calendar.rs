//! Calendar dates of the proleptic Gregorian calendar, for the days that the
//! library counts as Julian day numbers; the conversions are the `time`
//! crate's.

use time::{Date, Month};
use vstd::prelude::*;

use crate::periods::DateRange;
use crate::report::{decimal, decimal_text, two_digit_text, two_digits, valid_day};

verus! {

/// A Gregorian leap year.
pub open spec fn is_leap_year(year: int) -> bool {
    year % 4 == 0 && (year % 100 != 0 || year % 400 == 0)
}

/// The days of a month (1 to 12) of a year.
pub open spec fn days_in_month(year: int, month: int) -> int {
    if month == 2 {
        if is_leap_year(year) { 29 } else { 28 }
    } else if month == 4 || month == 6 || month == 9 || month == 11 {
        30
    } else {
        31
    }
}

/// The days of the year before the first of the month.
pub open spec fn days_before_month(year: int, month: int) -> int {
    let leap = if is_leap_year(year) { 1int } else { 0int };
    if month <= 1 {
        0
    } else if month == 2 {
        31
    } else {
        let common: int = if month == 3 {
            59
        } else if month == 4 {
            90
        } else if month == 5 {
            120
        } else if month == 6 {
            151
        } else if month == 7 {
            181
        } else if month == 8 {
            212
        } else if month == 9 {
            243
        } else if month == 10 {
            273
        } else if month == 11 {
            304
        } else {
            334
        };
        common + leap
    }
}

/// A date that the `time` crate represents: a year from -9999 to 9999, a
/// month from 1 to 12 and a day of that month.
pub open spec fn valid_calendar_date(year: int, month: int, day: int) -> bool {
    &&& -9999 <= year <= 9999
    &&& 1 <= month <= 12
    &&& 1 <= day <= days_in_month(year, month)
}

/// The Julian day number of a calendar date, as `Date::to_julian_day` computes it.
pub open spec fn julian_day_of(year: int, month: int, day: int) -> int {
    let ordinal = days_before_month(year, month) + day;
    let shifted_year = year + 999999;
    let century = shifted_year / 100;
    1461 * shifted_year / 4 - century + century / 4 + ordinal - 363521075
}

/// The year, month and day of a Julian day number: the valid calendar date
/// whose Julian day number it is (there is one for each day that `Date` holds).
pub open spec fn calendar_of(julian_day: int) -> (int, int, int) {
    choose|date: (int, int, int)|
        valid_calendar_date(date.0, date.1, date.2) && julian_day_of(date.0, date.1, date.2)
            == julian_day
}

/// `Date::from_julian_day` followed by `Date::to_calendar_date`: the year,
/// the month (1 to 12) and the day of a day in the range `Date` holds: the
/// valid calendar date whose Julian day number is the one given, which is
/// `calendar_of` of it. The day number is converted to a `Date` and the
/// `Month` to its number.
#[verifier::external_body]
pub(crate) fn calendar_date(julian_day: i32) -> (r: (i32, u8, u8))
    requires
        valid_day(julian_day as int),
    ensures
        (r.0 as int, r.1 as int, r.2 as int) == calendar_of(julian_day as int),
        valid_calendar_date(r.0 as int, r.1 as int, r.2 as int),
        julian_day_of(r.0 as int, r.1 as int, r.2 as int) == julian_day,
{
    let (year, month, day) = Date::from_julian_day(julian_day).unwrap().to_calendar_date();
    (year, u8::from(month), day)
}

/// `Date::from_calendar_date`, its result taken by `Date::to_julian_day`:
/// the Julian day number of a valid calendar date, and nothing for another
/// (the month number is converted to a `Month` first).
#[verifier::external_body]
fn calendar_julian_day(year: i32, month: u8, day: u8) -> (r: Option<i32>)
    ensures
        r == (if valid_calendar_date(year as int, month as int, day as int) {
            Some(julian_day_of(year as int, month as int, day as int) as i32)
        } else {
            None
        }),
{
    let month = match Month::try_from(month) {
        Ok(month) => month,
        Err(_) => return None,
    };
    match Date::from_calendar_date(year, month, day) {
        Ok(date) => Some(date.to_julian_day()),
        Err(_) => None,
    }
}

/// The day that `Date::parse` reads from a text in the format
/// `[year]-[month]-[day]`, as its Julian day number, or nothing.
pub uninterp spec fn iso_date(text: Seq<char>) -> Option<int>;

/// `Date::parse` with the format description `[year]-[month]-[day]`, the
/// date taken by `Date::to_julian_day`. The contract names the result
/// `iso_date`; a date it reads is one that `Date` holds.
#[verifier::external_body]
fn parse_iso_date(value: &str) -> (r: Option<i32>)
    ensures
        match r {
            Some(day) => iso_date(value@) == Some(day as int) && valid_day(day as int),
            None => iso_date(value@) is None,
        },
{
    let format = match time::format_description::parse("[year]-[month]-[day]") {
        Ok(format) => format,
        Err(_) => return None,
    };
    match Date::parse(value, &format) {
        Ok(date) => Some(date.to_julian_day()),
        Err(_) => None,
    }
}

/// `n` (below 10000) with at least four digits, as `Date` writes a year.
pub open spec fn four_digits(n: nat) -> Seq<char> {
    if n < 10 {
        seq!['0', '0', '0'] + decimal(n)
    } else if n < 100 {
        seq!['0', '0'] + decimal(n)
    } else if n < 1000 {
        seq!['0'] + decimal(n)
    } else {
        decimal(n)
    }
}

/// A calendar date as `Date` displays it: `YYYY-MM-DD`, with a `-` before a
/// year before year 0.
pub open spec fn spec_date_text(date: (int, int, int)) -> Seq<char> {
    let (year, month, day) = date;
    let sign = if year < 0 { seq!['-'] } else { Seq::empty() };
    let absolute = if year < 0 { -year } else { year };
    sign + four_digits(absolute as nat) + seq!['-'] + two_digits(month as nat) + seq!['-'] + two_digits(day as nat)
}

fn four_digit_text(n: u32) -> (r: String)
    requires
        n < 10000,
    ensures
        r@ == four_digits(n as nat),
{
    let digits = decimal_text(n as u64);
    proof {
        reveal_strlit("000");
        reveal_strlit("00");
        reveal_strlit("0");
    }
    if n < 10 {
        String::from_str("000").concat(digits.as_str())
    } else if n < 100 {
        String::from_str("00").concat(digits.as_str())
    } else if n < 1000 {
        String::from_str("0").concat(digits.as_str())
    } else {
        digits
    }
}

/// Writes a day as `Date` displays it, such as `2026-09-07`.
pub fn date_text(day: i32) -> (r: String)
    requires
        valid_day(day as int),
    ensures
        r@ == spec_date_text(calendar_of(day as int)),
{
    let (year, month, day_of_month) = calendar_date(day);
    let absolute: u32 = if year < 0 {
        (-year) as u32
    } else {
        year as u32
    };
    proof {
        reveal_strlit("-");
        reveal_strlit("");
    }
    let mut text = if year < 0 {
        String::from_str("-")
    } else {
        String::new()
    };
    text.append(four_digit_text(absolute).as_str());
    text.append("-");
    text.append(two_digit_text(month as u64).as_str());
    text.append("-");
    text.append(two_digit_text(day_of_month as u64).as_str());
    text
}

/// The month so far: from the first of today's month to today.
pub open spec fn spec_current_month(today: int) -> DateRange {
    DateRange { start: (today - (calendar_of(today).2 - 1)) as i32, end: today as i32 }
}

/// The month so far, from its first day to today.
pub fn current_month(today: i32) -> (r: DateRange)
    requires
        valid_day(today as int),
    ensures
        r == spec_current_month(today as int),
{
    let (year, month, day) = calendar_date(today);
    let first = calendar_julian_day(year, month, 1);
    match first {
        Some(start) => DateRange { start, end: today },
        None => {
            // Unreachable: the first of a valid date's month is a valid date.
            proof {
                assert(valid_calendar_date(year as int, month as int, 1));
            }
            DateRange { start: today, end: today }
        },
    }
}

/// The copy key of a month's name, for a month from 1 to 12.
pub open spec fn spec_month_key(month: int) -> Seq<char> {
    if month == 1 {
        "month.january"@
    } else if month == 2 {
        "month.february"@
    } else if month == 3 {
        "month.march"@
    } else if month == 4 {
        "month.april"@
    } else if month == 5 {
        "month.may"@
    } else if month == 6 {
        "month.june"@
    } else if month == 7 {
        "month.july"@
    } else if month == 8 {
        "month.august"@
    } else if month == 9 {
        "month.september"@
    } else if month == 10 {
        "month.october"@
    } else if month == 11 {
        "month.november"@
    } else {
        "month.december"@
    }
}

/// Names the copy key of a month's name.
pub fn month_key(month: u8) -> (key: &'static str)
    requires
        1 <= month <= 12,
    ensures
        key@ == spec_month_key(month as int),
{
    if month == 1 {
        "month.january"
    } else if month == 2 {
        "month.february"
    } else if month == 3 {
        "month.march"
    } else if month == 4 {
        "month.april"
    } else if month == 5 {
        "month.may"
    } else if month == 6 {
        "month.june"
    } else if month == 7 {
        "month.july"
    } else if month == 8 {
        "month.august"
    } else if month == 9 {
        "month.september"
    } else if month == 10 {
        "month.october"
    } else if month == 11 {
        "month.november"
    } else {
        "month.december"
    }
}

/// The copy key of a weekday's name; 0 is Monday and 6 is Sunday.
pub open spec fn spec_weekday_key(weekday: int) -> Seq<char> {
    if weekday == 0 {
        "weekday.monday"@
    } else if weekday == 1 {
        "weekday.tuesday"@
    } else if weekday == 2 {
        "weekday.wednesday"@
    } else if weekday == 3 {
        "weekday.thursday"@
    } else if weekday == 4 {
        "weekday.friday"@
    } else if weekday == 5 {
        "weekday.saturday"@
    } else {
        "weekday.sunday"@
    }
}

/// Names the copy key of a weekday's name.
pub fn weekday_key(weekday: i32) -> (key: &'static str)
    requires
        0 <= weekday <= 6,
    ensures
        key@ == spec_weekday_key(weekday as int),
{
    if weekday == 0 {
        "weekday.monday"
    } else if weekday == 1 {
        "weekday.tuesday"
    } else if weekday == 2 {
        "weekday.wednesday"
    } else if weekday == 3 {
        "weekday.thursday"
    } else if weekday == 4 {
        "weekday.friday"
    } else if weekday == 5 {
        "weekday.saturday"
    } else {
        "weekday.sunday"
    }
}

/// Why a typed day cannot be used.
#[derive(Clone, Copy, Debug, PartialEq, Eq, Structural)]
pub enum DateError {
    InvalidDate,
}

/// Reads a day typed as `YYYY-MM-DD`.
pub fn parse_date(value: &str) -> (r: Result<i32, DateError>)
    ensures
        match iso_date(value@) {
            Some(day) => r == Ok::<i32, DateError>(day as i32) && valid_day(day),
            None => r == Err::<i32, DateError>(DateError::InvalidDate),
        },
{
    match parse_iso_date(value) {
        Some(day) => Ok(day),
        None => Err(DateError::InvalidDate),
    }
}

} // verus!
