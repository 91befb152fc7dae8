//! Dates of the Gregorian calendar.
//!
//! A date is counted by its day number: the days from the first of January
//! of the year 1, which has number 1, in the calendar carried back and
//! forth without end. Moving a date by whole days is stated over that
//! number.

use vstd::prelude::*;
use crate::cmos::DateTime as Rtc;
use crate::decimal::{padded, padded_signed, push_char, push_padded, push_padded_signed};
use crate::time::calendar::{Month, Weekday};
use crate::time::duration::Duration;

verus! {

/// Whether `year` is a leap year.
pub open spec fn is_leap(year: int) -> bool {
    year % 4 == 0 && (year % 100 != 0 || year % 400 == 0)
}

/// The days of month number `month` in `year`.
pub open spec fn month_length(month: int, year: int) -> int {
    if month == 2 {
        if is_leap(year) {
            29
        } else {
            28
        }
    } else if month == 4 || month == 6 || month == 9 || month == 11 {
        30
    } else {
        31
    }
}

/// The days of `year` that come before the first of month number `month`.
pub open spec fn days_before_month(month: int, year: int) -> int
    decreases month,
{
    if month <= 1 {
        0
    } else {
        days_before_month(month - 1, year) + month_length(month - 1, year)
    }
}

/// The days of the calendar that come before the first of January of
/// `year`, counted from the first of January of the year 1.
pub open spec fn days_before_year(year: int) -> int {
    365 * (year - 1) + (year - 1) / 4 - (year - 1) / 100 + (year - 1) / 400
}

/// The day number of a day, month number and year.
pub open spec fn day_number_of(day: int, month: int, year: int) -> int {
    days_before_year(year) + days_before_month(month, year) + day
}

/// The day of the week by Zeller's congruence: 0 for Saturday to 6 for
/// Friday. January and February count as months 13 and 14 of the year
/// before.
pub open spec fn zeller(day: int, month: int, year: int) -> int {
    let m = if month < 3 {
        month + 12
    } else {
        month
    };
    let y = if month < 3 {
        year - 1
    } else {
        year
    };
    let k = y % 100;
    let j = y / 100;
    (day + (13 * (m + 1)) / 5 + k + k / 4 + j / 4 + 5 * j) % 7
}

/// The days before each month of a year, written out.
pub proof fn lemma_days_before_month(year: int)
    ensures
        days_before_month(1, year) == 0,
        days_before_month(2, year) == 31,
        days_before_month(3, year) == 59 + if is_leap(year) { 1int } else { 0 },
        days_before_month(4, year) == 90 + if is_leap(year) { 1int } else { 0 },
        days_before_month(5, year) == 120 + if is_leap(year) { 1int } else { 0 },
        days_before_month(6, year) == 151 + if is_leap(year) { 1int } else { 0 },
        days_before_month(7, year) == 181 + if is_leap(year) { 1int } else { 0 },
        days_before_month(8, year) == 212 + if is_leap(year) { 1int } else { 0 },
        days_before_month(9, year) == 243 + if is_leap(year) { 1int } else { 0 },
        days_before_month(10, year) == 273 + if is_leap(year) { 1int } else { 0 },
        days_before_month(11, year) == 304 + if is_leap(year) { 1int } else { 0 },
        days_before_month(12, year) == 334 + if is_leap(year) { 1int } else { 0 },
        days_before_month(13, year) == 365 + if is_leap(year) { 1int } else { 0 },
{
    reveal_with_fuel(days_before_month, 14);
}

/// A year has 365 days, and one more if it is a leap year.
pub proof fn lemma_year_length(year: int)
    ensures
        days_before_year(year + 1) == days_before_year(year) + days_before_month(13, year),
{
    lemma_days_before_month(year);
}

/// The days before a year rise with the year.
pub proof fn lemma_days_before_year_monotonic(earlier: int, later: int)
    requires
        earlier <= later,
    ensures
        days_before_year(later) - days_before_year(earlier) >= 365 * (later - earlier),
    decreases later - earlier,
{
    if earlier < later {
        lemma_days_before_year_monotonic(earlier, later - 1);
        lemma_year_length(later - 1);
        lemma_days_before_month(later - 1);
    }
}

/// A day of the Gregorian calendar.
#[derive(Debug, Clone, Copy, PartialEq, Eq, Structural)]
pub struct Date {
    day: u8,
    month: Month,
    year: i32,
}

impl Date {
    /// The day of the month.
    pub closed spec fn spec_day(&self) -> u8 {
        self.day
    }

    /// The month.
    pub closed spec fn spec_month(&self) -> Month {
        self.month
    }

    /// The year.
    pub closed spec fn spec_year(&self) -> i32 {
        self.year
    }

    /// Whether the date exists: its day is one of the days of its month.
    pub open spec fn valid(&self) -> bool {
        1 <= self.day() <= month_length(self.month().number(), self.year() as int)
    }

    /// The day number of the date.
    pub open spec fn day_number(&self) -> int {
        day_number_of(self.day() as int, self.month().number(), self.year() as int)
    }

    /// A date is known by its three fields.
    pub proof fn lemma_equal_by_fields(self, other: Date)
        requires
            self.day() == other.day(),
            self.month() == other.month(),
            self.year() == other.year(),
        ensures
            self == other,
    {
    }

    /// The date with the given fields, which are taken as they are.
    pub fn new(day: u8, month: Month, year: i32) -> (date: Self)
        ensures
            date.day() == day,
            date.month() == month,
            date.year() == year,
    {
        Self { day, month, year }
    }

    /// The date of a reading of the real-time clock.
    pub fn from_rtc(rtc: Rtc) -> (date: Self)
        requires
            1 <= rtc.month <= 12,
        ensures
            date.day() == rtc.day,
            date.month().number() == rtc.month,
            date.year() == rtc.year,
    {
        Self { day: rtc.day, month: Month::from_u8(rtc.month).unwrap(), year: rtc.year as i32 }
    }

    /// The day of the month.
    #[verifier::when_used_as_spec(spec_day)]
    pub fn day(&self) -> (day: u8)
        ensures
            day == self.day(),
    {
        self.day
    }

    /// The day of the year: the day of the month, and the days of the
    /// months before it.
    pub fn ordinal(&self) -> (ordinal: u16)
        ensures
            ordinal == self.day() + days_before_month(
                self.month().number(),
                self.year() as int,
            ),
    {
        let mut ordinal: u16 = self.day as u16;
        let end: u8 = self.month.as_u8();
        let mut month: u8 = 1;
        proof {
            lemma_days_before_month(self.year as int);
        }
        while month < end
            invariant
                1 <= month <= end <= 12,
                days_before_month(13, self.year as int) <= 366,
                ordinal == self.day + days_before_month(month as int, self.year as int),
                ordinal <= 255 + days_before_month(month as int, self.year as int),
                days_before_month(month as int, self.year as int) <= days_before_month(
                    13,
                    self.year as int,
                ),
            decreases end - month,
        {
            proof {
                lemma_days_before_month(self.year as int);
            }
            let current = Month::from_u8(month).unwrap();
            ordinal = ordinal + Date::new(1, current, self.year).days_in_month() as u16;
            month = month + 1;
        }
        ordinal
    }

    /// The week of the year, where the first seven days are week 1.
    pub fn week(&self) -> (week: u8)
        ensures
            week == Self::week_of_ordinal(
                self.day() + days_before_month(self.month().number(), self.year() as int),
            ),
    {
        proof {
            lemma_days_before_month(self.year as int);
        }
        let mut ordinal: u16 = self.ordinal();
        let mut week: u8 = 1;
        while ordinal > 7
            invariant
                ordinal <= 621,
                week >= 1,
                week + (ordinal + 6) / 7 <= 100,
                Self::week_of_ordinal(ordinal as int) + week - 1 == Self::week_of_ordinal(
                    self.day() + days_before_month(self.month().number(), self.year() as int),
                ),
            decreases ordinal,
        {
            ordinal = ordinal - 7;
            week = week + 1;
        }
        week
    }

    /// The week that day `ordinal` of a year lies in.
    pub open spec fn week_of_ordinal(ordinal: int) -> int {
        if ordinal <= 0 {
            1
        } else {
            (ordinal - 1) / 7 + 1
        }
    }

    /// The day of the week, by Zeller's congruence, for a date of the year
    /// 1 or later. (For March of the year 0 and later the formula holds as
    /// well.)
    pub fn weekday(&self) -> (weekday: Weekday)
        requires
            self.year() >= 1 || (self.year() == 0 && self.month().number() >= 3),
        ensures
            weekday.number() == zeller(
                self.day() as int,
                self.month().number(),
                self.year() as int,
            ),
    {
        let mut year: i32 = self.year;
        let mut month: u8 = self.month.as_u8();
        let day: i32 = self.day as i32;

        if month < 3 {
            month = month + 12;
            year = year - 1;
        }
        let k: i32 = year % 100;
        let j: i32 = year / 100;
        let h: i32 = (day + (13 * (month as i32 + 1) / 5) + k + (k / 4) + (j / 4) + 5 * j) % 7;

        Weekday::from_u8(h as u8).unwrap()
    }

    /// The month.
    #[verifier::when_used_as_spec(spec_month)]
    pub fn month(&self) -> (month: Month)
        ensures
            month == self.month(),
    {
        self.month
    }

    /// The year.
    #[verifier::when_used_as_spec(spec_year)]
    pub fn year(&self) -> (year: i32)
        ensures
            year == self.year(),
    {
        self.year
    }

    /// Whether the year of the date is a leap year.
    pub fn is_leap_year(&self) -> (leap: bool)
        ensures
            leap == is_leap(self.year() as int),
    {
        (self.year % 4 == 0) && (self.year % 100 != 0 || self.year % 400 == 0)
    }

    /// The number of days of the month of the date.
    pub fn days_in_month(&self) -> (days: u8)
        ensures
            days == month_length(self.month().number(), self.year() as int),
    {
        match self.month {
            Month::January => 31,
            Month::February => if self.is_leap_year() {
                29
            } else {
                28
            },
            Month::March => 31,
            Month::April => 30,
            Month::May => 31,
            Month::June => 30,
            Month::July => 31,
            Month::August => 31,
            Month::September => 30,
            Month::October => 31,
            Month::November => 30,
            Month::December => 31,
        }
    }

    /// The date that is as many days later as `rhs` has whole days of
    /// 86400 seconds. Where that is no day at all, the date is returned
    /// as it is.
    ///
    /// The day of `self` may be 0, which stands for the last day of the
    /// month before, but not beyond the end of its month; and the result
    /// must not lie beyond the year 2147483647.
    pub fn add(&self, rhs: Duration) -> (later: Self)
        requires
            rhs.seconds() / 86400 > 0 ==> self.day() <= month_length(
                self.month().number(),
                self.year() as int,
            ),
            rhs.seconds() / 86400 > 0 ==> self.day_number() + rhs.seconds() / 86400
                <= days_before_year(0x8000_0000),
        ensures
            later.day_number() == self.day_number() + rhs.seconds() / 86400,
            rhs.seconds() / 86400 == 0 ==> later == *self,
            rhs.seconds() / 86400 > 0 ==> later.valid(),
    {
        let mut days_to_add: u64 = rhs.seconds() / 86_400;
        let mut new_day: u8 = self.day;
        let mut new_month: u8 = self.month.as_u8();
        let mut new_year: i32 = self.year;

        while days_to_add > 0
            invariant
                1 <= new_month <= 12,
                rhs.seconds() / 86400 > 0 ==> new_day <= month_length(
                    new_month as int,
                    new_year as int,
                ),
                rhs.seconds() / 86400 == 0 ==> new_day == self.day && new_month
                    == self.month.number() && new_year == self.year,
                day_number_of(new_day as int, new_month as int, new_year as int) + days_to_add
                    == self.day_number() + rhs.seconds() / 86400,
                rhs.seconds() / 86400 > 0 ==> self.day_number() + rhs.seconds() / 86400
                    <= days_before_year(0x8000_0000),
                days_to_add < rhs.seconds() / 86400 ==> new_day >= 1,
                days_to_add <= rhs.seconds() / 86400,
            decreases days_to_add,
        {
            proof {
                lemma_days_before_month(new_year as int);
                lemma_year_length(new_year as int);
                lemma_days_before_month(new_year as int + 1);
                lemma_days_before_year_monotonic(new_year as int + 1, 0x8000_0000);
            }
            let days_in_current_month: u8 = Date::new(
                1,
                Month::from_u8(new_month).unwrap(),
                new_year,
            ).days_in_month();
            if new_day as u64 + days_to_add > days_in_current_month as u64 {
                days_to_add = days_to_add - ((days_in_current_month - new_day) as u64 + 1);
                new_day = 1;
                new_month = new_month + 1;
                if new_month > 12 {
                    new_month = 1;
                    new_year = new_year + 1;
                }
            } else {
                new_day = new_day + days_to_add as u8;
                days_to_add = 0;
            }
        }

        Date::new(new_day, Month::from_u8(new_month).unwrap(), new_year)
    }

    /// The date that is as many days earlier as `rhs` has whole days of
    /// 86400 seconds. Where that is no day at all, the date is returned
    /// as it is.
    ///
    /// The result must not lie before the year -2147483648.
    pub fn sub(&self, rhs: Duration) -> (earlier: Self)
        requires
            rhs.seconds() / 86400 > 0 ==> self.day_number() - rhs.seconds() / 86400
                > days_before_year(-0x8000_0000),
        ensures
            earlier.day_number() == self.day_number() - rhs.seconds() / 86400,
            rhs.seconds() / 86400 == 0 ==> earlier == *self,
            rhs.seconds() / 86400 > 0 && self.day() <= month_length(
                self.month().number(),
                self.year() as int,
            ) ==> earlier.valid(),
    {
        let mut days_to_sub: u64 = rhs.seconds() / 86_400;
        let mut new_day: i64 = self.day as i64;
        let mut new_month: u8 = self.month.as_u8();
        let mut new_year: i32 = self.year;

        while days_to_sub > 0
            invariant
                1 <= new_month <= 12,
                0 <= new_day <= 255,
                self.day() <= month_length(self.month().number(), self.year() as int)
                    ==> new_day <= month_length(new_month as int, new_year as int),
                day_number_of(new_day as int, new_month as int, new_year as int) - days_to_sub
                    == self.day_number() - rhs.seconds() / 86400,
                rhs.seconds() / 86400 > 0 ==> self.day_number() - rhs.seconds() / 86400
                    > days_before_year(-0x8000_0000),
                rhs.seconds() / 86400 == 0 ==> new_day == self.day && new_month
                    == self.month.number() && new_year == self.year,
                days_to_sub < rhs.seconds() / 86400 ==> new_day >= 1,
                days_to_sub <= rhs.seconds() / 86400,
            decreases days_to_sub, (if new_day == 0 { 1int } else { 0int }),
        {
            proof {
                lemma_days_before_month(new_year as int);
                lemma_year_length(new_year as int - 1);
                lemma_days_before_month(new_year as int - 1);
                lemma_days_before_year_monotonic(-0x8000_0000, new_year as int);
            }
            if new_day as u64 <= days_to_sub {
                days_to_sub = days_to_sub - new_day as u64;
                new_month = if new_month == 1 {
                    12
                } else {
                    new_month - 1
                };
                new_day = Date::new(
                    1,
                    Month::from_u8(new_month).unwrap(),
                    new_year,
                ).days_in_month() as i64;
                if new_month == 12 {
                    new_year = new_year - 1;
                }
            } else {
                new_day = new_day - days_to_sub as i64;
                days_to_sub = 0;
            }
        }

        Date::new(new_day as u8, Month::from_u8(new_month).unwrap(), new_year)
    }

    /// The date as it is written: the day and the number of the month in
    /// two digits each and the year in four, with strokes between them.
    pub open spec fn text(&self) -> Seq<char> {
        padded(self.day() as nat, 2) + seq!['/'] + padded(self.month().number() as nat, 2) + seq![
            '/',
        ] + padded_signed(self.year() as int, 4)
    }

    /// The date as it is written.
    pub fn to_string(&self) -> (text: String)
        ensures
            text@ == self.text(),
    {
        let mut text = String::new();
        push_padded(&mut text, self.day as u64, 2);
        push_char(&mut text, '/');
        push_padded(&mut text, self.month.as_u8() as u64, 2);
        push_char(&mut text, '/');
        push_padded_signed(&mut text, self.year as i64, 4);
        assert(text@ =~= self.text());
        text
    }

    /// Year, month and day.
    pub fn as_calendar_date(&self) -> (date: (i32, Month, u8))
        ensures
            date == (self.year(), self.month(), self.day()),
    {
        (self.year, self.month, self.day)
    }

    /// Year and day of the year.
    pub fn as_ordinal_date(&self) -> (date: (i32, u16))
        ensures
            date.0 == self.year(),
            date.1 == self.day() + days_before_month(self.month().number(), self.year() as int),
    {
        (self.year, self.ordinal())
    }

    /// Year, week of the year and day of the week.
    pub fn as_week_date(&self) -> (date: (i32, u8, Weekday))
        requires
            self.year() >= 1 || (self.year() == 0 && self.month().number() >= 3),
        ensures
            date.0 == self.year(),
            date.1 == Self::week_of_ordinal(
                self.day() + days_before_month(self.month().number(), self.year() as int),
            ),
            date.2.number() == zeller(self.day() as int, self.month().number(), self.year() as int),
    {
        (self.year, self.week(), self.weekday())
    }
}

/// A date that exists is known by its day number: no two have the same.
pub proof fn lemma_day_number_injective(a: Date, b: Date)
    requires
        a.valid(),
        b.valid(),
        a.day_number() == b.day_number(),
    ensures
        a == b,
{
    let ya = a.year() as int;
    let yb = b.year() as int;
    lemma_days_before_month(ya);
    lemma_days_before_month(yb);
    lemma_year_length(ya);
    lemma_year_length(yb);
    if ya < yb {
        lemma_days_before_year_monotonic(ya + 1, yb);
        assert(false);
    }
    if yb < ya {
        lemma_days_before_year_monotonic(yb + 1, ya);
        assert(false);
    }
    assert(a.month().number() == b.month().number());
    assert(a.month() == b.month());
    a.lemma_equal_by_fields(b);
}

/// A date that is moved on by whole days and back by as many is the date
/// it was, and so is one that is moved back and then on.
pub proof fn lemma_add_sub_round_trip(start: Date, there: Date, back: Date, days: int)
    requires
        start.valid(),
        there.valid(),
        back.valid(),
        there.day_number() == start.day_number() + days,
        back.day_number() == there.day_number() - days,
    ensures
        back == start,
{
    lemma_day_number_injective(back, start);
}

/// A later date has a greater day number: the day number counts the days
/// of the calendar in their order.
pub proof fn lemma_day_number_ordered(a: Date, b: Date)
    requires
        a.valid(),
        b.valid(),
        a.year() < b.year() || (a.year() == b.year() && (a.month().number() < b.month().number() || (
        a.month() == b.month() && a.day() < b.day()))),
    ensures
        a.day_number() < b.day_number(),
{
    let ya = a.year() as int;
    let yb = b.year() as int;
    lemma_days_before_month(ya);
    lemma_days_before_month(yb);
    lemma_year_length(ya);
    if ya < yb {
        lemma_days_before_year_monotonic(ya + 1, yb);
    }
}

} // verus!
