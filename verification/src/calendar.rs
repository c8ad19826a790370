//! Calendar days and times of day.
//!
//! A [`Date`] is a day of the proleptic Gregorian calendar, held as its
//! number in the count of days that has January 1 of the year 1 as day 1,
//! which is the count that `chrono` keeps. Order, distance and shifting by
//! days are plain arithmetic on that number; `chrono` turns a year, a month
//! and a day into it.

use crate::text::{digits_at, fixed_digits, rest_from, to_chars, ParseError};
use vstd::prelude::*;

verus! {

/// The first year that `chrono` can hold.
pub const MIN_YEAR: i32 = -262143;

/// The last year that `chrono` can hold.
pub const MAX_YEAR: i32 = 262142;

/// The day number of January 1 of `MIN_YEAR`.
pub const FIRST_DAY: i32 = -95746129;

/// The day number of December 31 of `MAX_YEAR`.
pub const LAST_DAY: i32 = 95745399;

/// Whether `year` has a February 29.
pub open spec fn is_leap_year(year: int) -> bool {
    year % 4 == 0 && (year % 100 != 0 || year % 400 == 0)
}

/// The number of days of a month.
pub open spec fn days_in_month(year: int, month: int) -> int {
    if month == 2 {
        if is_leap_year(year) {
            29
        } else {
            28
        }
    } else if month == 4 || month == 6 || month == 9 || month == 11 {
        30
    } else {
        31
    }
}

/// Whether the calendar has this day, in a year that `chrono` can hold.
pub open spec fn is_calendar_date(year: int, month: int, day: int) -> bool {
    &&& MIN_YEAR <= year <= MAX_YEAR
    &&& 1 <= month <= 12
    &&& 1 <= day <= days_in_month(year, month)
}

/// The number of days of `year` before its month `month`.
pub open spec fn days_before_month(year: int, month: int) -> int {
    let leap_day: int = if is_leap_year(year) && month > 2 {
        1
    } else {
        0
    };
    let before: int = if month <= 1 {
        0
    } else if month == 2 {
        31
    } else if month == 3 {
        59
    } else if month == 4 {
        90
    } else if month == 5 {
        120
    } else if month == 6 {
        151
    } else if month == 7 {
        181
    } else if month == 8 {
        212
    } else if month == 9 {
        243
    } else if month == 10 {
        273
    } else if month == 11 {
        304
    } else {
        334
    };
    before + leap_day
}

/// The number of days of the years before `year`, from the year 1 on: 365
/// for each, and one more for each leap year.
pub open spec fn days_before_year(year: int) -> int {
    365 * (year - 1) + (year - 1) / 4 - (year - 1) / 100 + (year - 1) / 400
}

/// The number of a calendar day: the days of the proleptic Gregorian
/// calendar are counted through, with January 1 of the year 1 as day 1.
pub open spec fn day_number(year: int, month: int, day: int) -> int {
    days_before_year(year) + days_before_month(year, month) + day
}

/// Whether the first of two days comes before the second in the calendar.
pub open spec fn is_earlier(y1: int, m1: int, d1: int, y2: int, m2: int, d2: int) -> bool {
    y1 < y2 || (y1 == y2 && (m1 < m2 || (m1 == m2 && d1 < d2)))
}

/// The number of days of `year`.
pub open spec fn days_in_year(year: int) -> int {
    if is_leap_year(year) {
        366
    } else {
        365
    }
}

/// A year has 365 days, or 366 where it is a leap year.
pub proof fn lemma_year_length(year: int)
    ensures
        days_before_year(year + 1) - days_before_year(year) == days_in_year(year),
{
}

/// The days of later years have higher numbers: a year starts after all
/// days of every year before it.
pub proof fn lemma_years_in_order(y1: int, y2: int)
    requires
        y1 < y2,
    ensures
        days_before_year(y1) + days_in_year(y1) <= days_before_year(y2),
    decreases y2 - y1,
{
    lemma_year_length(y1);
    if y1 + 1 < y2 {
        lemma_years_in_order(y1 + 1, y2);
    }
}

/// The day numbers go as the calendar goes: of two days of the calendar,
/// the earlier has the lower number.
pub proof fn lemma_day_number_in_order(y1: int, m1: int, d1: int, y2: int, m2: int, d2: int)
    requires
        is_calendar_date(y1, m1, d1),
        is_calendar_date(y2, m2, d2),
    ensures
        is_earlier(y1, m1, d1, y2, m2, d2) <==> day_number(y1, m1, d1) < day_number(y2, m2, d2),
        (y1 == y2 && m1 == m2 && d1 == d2) <==> day_number(y1, m1, d1) == day_number(
            y2,
            m2,
            d2,
        ),
{
    if y1 < y2 {
        lemma_years_in_order(y1, y2);
    }
    if y2 < y1 {
        lemma_years_in_order(y2, y1);
    }
}

/// The day after a day of the calendar has the next number: the day after
/// the last of a month is the first of the next, and the day after
/// December 31 is January 1 of the next year.
pub proof fn lemma_next_day(year: int, month: int, day: int)
    requires
        is_calendar_date(year, month, day),
    ensures
        day < days_in_month(year, month) ==> day_number(year, month, day + 1) == day_number(
            year,
            month,
            day,
        ) + 1,
        day == days_in_month(year, month) && month < 12 ==> day_number(year, month + 1, 1)
            == day_number(year, month, day) + 1,
        day == 31 && month == 12 ==> day_number(year + 1, 1, 1) == day_number(year, month, day)
            + 1,
{
    lemma_year_length(year);
}

/// The numbers of the days that `chrono` can hold lie between those of the
/// first and the last of them.
pub proof fn lemma_day_number_bounds(year: int, month: int, day: int)
    requires
        is_calendar_date(year, month, day),
    ensures
        FIRST_DAY <= day_number(year, month, day) <= LAST_DAY,
        day_number(MIN_YEAR as int, 1, 1) == FIRST_DAY,
        day_number(MAX_YEAR as int, 12, 31) == LAST_DAY,
{
    lemma_day_number_in_order(MIN_YEAR as int, 1, 1, year, month, day);
    lemma_day_number_in_order(year, month, day, MAX_YEAR as int, 12, 31);
}

/// Calls `chrono::NaiveDate::from_ymd_opt` and, on the date it made,
/// `num_days_from_ce`. Claims that a date is made exactly for the days the
/// calendar has, in the years `MIN_YEAR` to `MAX_YEAR`, and that its number
/// is the count of the days of the proleptic Gregorian calendar with
/// January 1 of the year 1 as day 1.
#[verifier::external_body]
fn chrono_day_number(year: i32, month: u32, day: u32) -> (r: Option<i32>)
    ensures
        r.is_some() == is_calendar_date(year as int, month as int, day as int),
        r matches Some(n) ==> n == day_number(year as int, month as int, day as int),
{
    match chrono::NaiveDate::from_ymd_opt(year, month, day) {
        Some(date) => Some(chrono::Datelike::num_days_from_ce(&date)),
        None => None,
    }
}

/// A calendar day.
#[derive(Clone, Copy, Debug, PartialEq, Eq, Structural, PartialOrd, Ord, Hash)]
pub struct Date {
    /// The day's number; January 1 of the year 1 is day 1.
    pub days: i32,
}

impl Date {
    /// Whether `chrono` can hold the day.
    pub open spec fn wf(&self) -> bool {
        FIRST_DAY <= self.days <= LAST_DAY
    }

    /// Whether `chrono` can hold the day.
    pub fn is_valid(&self) -> (r: bool)
        ensures
            r == self.wf(),
    {
        FIRST_DAY <= self.days && self.days <= LAST_DAY
    }

    /// The day that a year, a month and a day of the month name, if the
    /// calendar has it.
    pub fn from_ymd_opt(year: i32, month: u32, day: u32) -> (r: Option<Date>)
        ensures
            r.is_some() == is_calendar_date(year as int, month as int, day as int),
            r matches Some(date) ==> date.wf() && date.days == day_number(
                year as int,
                month as int,
                day as int,
            ),
    {
        match chrono_day_number(year, month, day) {
            Some(days) => {
                proof {
                    lemma_day_number_bounds(year as int, month as int, day as int);
                }
                Some(Date { days })
            },
            None => None,
        }
    }

    /// The day's number.
    pub fn num_days_from_ce(&self) -> (r: i32)
        ensures
            r == self.days,
    {
        self.days
    }

    /// The number of days from `earlier` to this day; negative where this
    /// day comes first.
    pub fn days_since(&self, earlier: &Date) -> (r: i64)
        ensures
            r == self.days - earlier.days,
    {
        self.days as i64 - earlier.days as i64
    }

    /// The day `n` days on, unless it lies after the last day that `chrono`
    /// can hold.
    pub fn checked_add_days(&self, n: u64) -> (r: Option<Date>)
        requires
            self.wf(),
        ensures
            r.is_some() == (self.days + n <= LAST_DAY),
            r matches Some(date) ==> date.wf() && date.days == self.days + n,
    {
        if n <= (LAST_DAY as i64 - self.days as i64) as u64 {
            Some(Date { days: (self.days as i64 + n as i64) as i32 })
        } else {
            None
        }
    }

    /// Whether this day comes before `other`.
    pub fn is_before(&self, other: &Date) -> (r: bool)
        ensures
            r == (self.days < other.days),
    {
        self.days < other.days
    }
}

/// A time of day.
#[derive(Clone, Copy, Debug, PartialEq, Eq, Structural, PartialOrd, Ord, Hash)]
pub struct Time {
    pub hour: u32,
    pub minute: u32,
    pub second: u32,
}

impl Time {
    /// Whether the clock shows such a time.
    pub open spec fn wf(&self) -> bool {
        self.hour < 24 && self.minute < 60 && self.second < 60
    }

    /// Whether the clock shows such a time.
    pub fn is_valid(&self) -> (r: bool)
        ensures
            r == self.wf(),
    {
        self.hour < 24 && self.minute < 60 && self.second < 60
    }

    /// The time that an hour, a minute and a second name, if the clock
    /// shows it.
    pub fn from_hms_opt(hour: u32, minute: u32, second: u32) -> (r: Option<Time>)
        ensures
            r == if hour < 24 && minute < 60 && second < 60 {
                Some(Time { hour, minute, second })
            } else {
                None
            },
    {
        if hour < 24 && minute < 60 && second < 60 {
            Some(Time { hour, minute, second })
        } else {
            None
        }
    }
}

/// The date that the eight digits at `i` write, as day, month and year, and
/// the position after them.
pub open spec fn date_at(s: Seq<char>, i: int) -> Option<(Date, int)> {
    match (digits_at(s, i, 2), digits_at(s, i + 2, 2), digits_at(s, i + 4, 4)) {
        (Some(day), Some(month), Some(year)) => if is_calendar_date(year, month, day) {
            Some((Date { days: day_number(year, month, day) as i32 }, i + 8))
        } else {
            None
        },
        _ => None,
    }
}

/// The time that the four digits at `i` write, as hour and minute, and the
/// position after them. An hour of 24 or more stands for the same hour of
/// the next day and is taken modulo 24; the date is not touched.
pub open spec fn time_at(s: Seq<char>, i: int) -> Option<(Time, int)> {
    match (digits_at(s, i, 2), digits_at(s, i + 2, 2)) {
        (Some(hour), Some(minute)) => if minute < 60 {
            Some((Time { hour: (hour % 24) as u32, minute: minute as u32, second: 0 }, i + 4))
        } else {
            None
        },
        _ => None,
    }
}

/// Reads the date at position `i`.
pub fn parse_date(s: &Vec<char>, i: usize) -> (r: Option<(Date, usize)>)
    requires
        i <= s.len(),
    ensures
        match date_at(s@, i as int) {
            Some((date, n)) => r == Some((date, n as usize)) && n == i + 8 && n <= s.len()
                && date.wf(),
            None => r.is_none(),
        },
{
    let day = match fixed_digits(s, i, 2) {
        Some(v) => v,
        None => {
            return None;
        },
    };
    let month = match fixed_digits(s, i + 2, 2) {
        Some(v) => v,
        None => {
            return None;
        },
    };
    let year = match fixed_digits(s, i + 4, 4) {
        Some(v) => v,
        None => {
            return None;
        },
    };
    match Date::from_ymd_opt(year as i32, month, day) {
        Some(date) => Some((date, i + 8)),
        None => None,
    }
}

/// Reads the time at position `i`.
pub fn parse_time(s: &Vec<char>, i: usize) -> (r: Option<(Time, usize)>)
    requires
        i <= s.len(),
    ensures
        match time_at(s@, i as int) {
            Some((time, n)) => r == Some((time, n as usize)) && n == i + 4 && n <= s.len()
                && time.wf(),
            None => r.is_none(),
        },
{
    let hour = match fixed_digits(s, i, 2) {
        Some(v) => v,
        None => {
            return None;
        },
    };
    let minute = match fixed_digits(s, i + 2, 2) {
        Some(v) => v,
        None => {
            return None;
        },
    };
    match Time::from_hms_opt(hour % 24, minute, 0) {
        Some(time) => Some((time, i + 4)),
        None => None,
    }
}

/// Reads a date, `DDMMYYYY`, from the start of `input`. Fails where the
/// eight digits are not there or name no day of the calendar.
pub fn date_string<'a>(input: &'a str) -> (r: Result<(&'a str, Date), ParseError>)
    ensures
        match date_at(input@, 0) {
            Some((date, n)) => r matches Ok((rest, d)) && d == date && 0 < n <= input@.len()
                && rest@ == input@.subrange(n, input@.len() as int),
            None => r.is_err(),
        },
{
    let chars = to_chars(input);
    match parse_date(&chars, 0) {
        Some((date, n)) => Ok((rest_from(input, n, chars.len()), date)),
        None => Err(ParseError),
    }
}

/// Reads a time, `HHMM`, from the start of `input`. The hour is taken
/// modulo 24. Fails where the four digits are not there or the minute is
/// 60 or more.
pub fn time_string<'a>(input: &'a str) -> (r: Result<(&'a str, Time), ParseError>)
    ensures
        match time_at(input@, 0) {
            Some((time, n)) => r matches Ok((rest, t)) && t == time && 0 < n <= input@.len()
                && rest@ == input@.subrange(n, input@.len() as int),
            None => r.is_err(),
        },
{
    let chars = to_chars(input);
    match parse_time(&chars, 0) {
        Some((time, n)) => Ok((rest_from(input, n, chars.len()), time)),
        None => Err(ParseError),
    }
}

} // verus!
