//! A date together with a time of day.

use vstd::prelude::*;
use crate::cmos::DateTime as Rtc;
use crate::decimal::push_char;
use crate::time::calendar::{Month, Weekday};
use crate::time::date::{days_before_month, days_before_year, is_leap, month_length, zeller, Date};
use crate::time::duration::Duration;
use crate::time::offset::TimeOffset;
use crate::time::time_of_day::Time;

verus! {

/// A moment: a date and a time of day.
#[derive(Debug, Clone, Copy, PartialEq, Eq, Structural)]
pub struct DateTime {
    time: Time,
    date: Date,
}

impl DateTime {
    /// The time of day.
    pub closed spec fn spec_time(&self) -> Time {
        self.time
    }

    /// The date.
    pub closed spec fn spec_date(&self) -> Date {
        self.date
    }

    /// A moment is known by its date and its time of day.
    pub proof fn lemma_equal_by_parts(self, other: DateTime)
        requires
            self.time() == other.time(),
            self.date() == other.date(),
        ensures
            self == other,
    {
    }

    /// Whether taking `taken` nanoseconds from the time of day shows a later
    /// hour than before, which [`DateTime::sub`] takes for a step back over
    /// midnight.
    pub open spec fn steps_back(&self, taken: int) -> bool {
        (self.time().total_after_sub(taken) / 3_600_000_000_000) % 24 > self.time().hours()
    }

    /// The moment with the given fields, which are taken as they are.
    pub fn new(
        nano: u32,
        seconds: u8,
        minutes: u8,
        hours: u8,
        day: u8,
        month: Month,
        year: i32,
    ) -> (moment: Self)
        ensures
            moment.time().nano() == nano,
            moment.time().seconds() == seconds,
            moment.time().minutes() == minutes,
            moment.time().hours() == hours,
            moment.date().day() == day,
            moment.date().month() == month,
            moment.date().year() == year,
    {
        Self { time: Time::new(nano, seconds, minutes, hours), date: Date::new(day, month, year) }
    }

    /// The moment of a reading of the real-time clock, on the second.
    pub fn from_rtc(rtc: Rtc) -> (moment: Self)
        requires
            1 <= rtc.month <= 12,
        ensures
            moment.time().nano() == 0,
            moment.time().seconds() == rtc.seconds,
            moment.time().minutes() == rtc.minutes,
            moment.time().hours() == rtc.hours,
            moment.date().day() == rtc.day,
            moment.date().month().number() == rtc.month,
            moment.date().year() == rtc.year,
    {
        Self::new(
            0,
            rtc.seconds,
            rtc.minutes,
            rtc.hours,
            rtc.day,
            Month::from_u8(rtc.month).unwrap(),
            rtc.year as i32,
        )
    }

    /// The time of day.
    #[verifier::when_used_as_spec(spec_time)]
    pub fn time(&self) -> (time: Time)
        ensures
            time == self.time(),
    {
        self.time
    }

    /// The date.
    #[verifier::when_used_as_spec(spec_date)]
    pub fn date(&self) -> (date: Date)
        ensures
            date == self.date(),
    {
        self.date
    }

    /// The nanoseconds of the running second.
    pub fn nano(&self) -> (nano: u32)
        ensures
            nano == self.time().nano(),
    {
        self.time.nano()
    }

    /// The whole microseconds of the running second.
    pub fn micro(&self) -> (micro: u32)
        ensures
            micro == self.time().nano() / 1000,
    {
        self.time.micro()
    }

    /// The whole milliseconds of the running second.
    pub fn milli(&self) -> (milli: u32)
        ensures
            milli == self.time().nano() / 1000000,
    {
        self.time.milli()
    }

    /// The seconds of the running minute.
    pub fn seconds(&self) -> (seconds: u8)
        ensures
            seconds == self.time().seconds(),
    {
        self.time.seconds()
    }

    /// The minutes of the running hour.
    pub fn minutes(&self) -> (minutes: u8)
        ensures
            minutes == self.time().minutes(),
    {
        self.time.minutes()
    }

    /// The hours of the day.
    pub fn hours(&self) -> (hours: u8)
        ensures
            hours == self.time().hours(),
    {
        self.time.hours()
    }

    /// The day of the month.
    pub fn day(&self) -> (day: u8)
        ensures
            day == self.date().day(),
    {
        self.date.day()
    }

    /// The day of the year.
    pub fn ordinal(&self) -> (ordinal: u16)
        ensures
            ordinal == self.date().day() + days_before_month(
                self.date().month().number(),
                self.date().year() as int,
            ),
    {
        self.date.ordinal()
    }

    /// The week of the year, where the first seven days are week 1.
    pub fn week(&self) -> (week: u8)
        ensures
            week == Date::week_of_ordinal(
                self.date().day() + days_before_month(
                    self.date().month().number(),
                    self.date().year() as int,
                ),
            ),
    {
        self.date.week()
    }

    /// The day of the week, for a date of the year 1 or later.
    pub fn weekday(&self) -> (weekday: Weekday)
        requires
            self.date().year() >= 1 || (self.date().year() == 0 && self.date().month().number()
                >= 3),
        ensures
            weekday.number() == zeller(
                self.date().day() as int,
                self.date().month().number(),
                self.date().year() as int,
            ),
    {
        self.date.weekday()
    }

    /// The month.
    pub fn month(&self) -> (month: Month)
        ensures
            month == self.date().month(),
    {
        self.date.month()
    }

    /// The year.
    pub fn year(&self) -> (year: i32)
        ensures
            year == self.date().year(),
    {
        self.date.year()
    }

    /// Whether the year is a leap year.
    pub fn is_leap_year(&self) -> (leap: bool)
        ensures
            leap == is_leap(self.date().year() as int),
    {
        self.date.is_leap_year()
    }

    /// The number of days of the month.
    pub fn days_in_month(&self) -> (days: u8)
        ensures
            days == month_length(self.date().month().number(), self.date().year() as int),
    {
        self.date.days_in_month()
    }

    /// Hours, minutes and seconds.
    pub fn as_hms(&self) -> (hms: (u8, u8, u8))
        ensures
            hms == (self.time().hours(), self.time().minutes(), self.time().seconds()),
    {
        self.time.as_hms()
    }

    /// Hours, minutes, seconds and whole milliseconds.
    pub fn as_hms_milli(&self) -> (hms: (u8, u8, u8, u32))
        ensures
            hms == (
                self.time().hours(),
                self.time().minutes(),
                self.time().seconds(),
                (self.time().nano() / 1000000) as u32,
            ),
    {
        self.time.as_hms_milli()
    }

    /// Hours, minutes, seconds and whole microseconds.
    pub fn as_hms_micro(&self) -> (hms: (u8, u8, u8, u32))
        ensures
            hms == (
                self.time().hours(),
                self.time().minutes(),
                self.time().seconds(),
                (self.time().nano() / 1000) as u32,
            ),
    {
        self.time.as_hms_micro()
    }

    /// Hours, minutes, seconds and nanoseconds.
    pub fn as_hms_nano(&self) -> (hms: (u8, u8, u8, u32))
        ensures
            hms == (
                self.time().hours(),
                self.time().minutes(),
                self.time().seconds(),
                self.time().nano(),
            ),
    {
        self.time.as_hms_nano()
    }

    /// Year, month and day.
    pub fn as_calendar_date(&self) -> (date: (i32, Month, u8))
        ensures
            date == (self.date().year(), self.date().month(), self.date().day()),
    {
        self.date.as_calendar_date()
    }

    /// Year and day of the year.
    pub fn as_ordinal_date(&self) -> (date: (i32, u16))
        ensures
            date.0 == self.date().year(),
            date.1 == self.date().day() + days_before_month(
                self.date().month().number(),
                self.date().year() as int,
            ),
    {
        self.date.as_ordinal_date()
    }

    /// Year, week of the year and day of the week, for a date of the year
    /// 1 or later.
    pub fn as_week_date(&self) -> (date: (i32, u8, Weekday))
        requires
            self.date().year() >= 1 || (self.date().year() == 0 && self.date().month().number()
                >= 3),
        ensures
            date.0 == self.date().year(),
            date.1 == Date::week_of_ordinal(
                self.date().day() + days_before_month(
                    self.date().month().number(),
                    self.date().year() as int,
                ),
            ),
            date.2.number() == zeller(
                self.date().day() as int,
                self.date().month().number(),
                self.date().year() as int,
            ),
    {
        self.date.as_week_date()
    }

    /// The moment as it is written: the date, a space, and the time.
    pub open spec fn text(&self) -> Seq<char> {
        self.date().text() + seq![' '] + self.time().text()
    }

    /// The moment as it is written.
    pub fn to_string(&self) -> (text: String)
        ensures
            text@ == self.text(),
    {
        let mut text = self.date.to_string();
        push_char(&mut text, ' ');
        let time = self.time.to_string();
        text.append(time.as_str());
        assert(text@ =~= self.text());
        text
    }

    /// The moment whose time of day is `rhs` later, going round the clock.
    /// The date stays: the hours are reduced to the dial before the days
    /// are looked at, so none is ever carried over.
    pub fn add(&self, rhs: Duration) -> (later: Self)
        requires
            self.time().nano() + rhs.nanos() <= u64::MAX,
            self.time().seconds() + rhs.seconds() + (self.time().nano() + rhs.nanos())
                / 1_000_000_000 <= u64::MAX,
        ensures
            later.time().shows(self.time().total_nanos() + rhs.total_nanos()),
            later.date() == self.date(),
    {
        let new_time = self.time.add(rhs);
        let day_overflow: u8 = new_time.hours() / 24;
        let new_date = self.date.add(Duration::from_days(day_overflow as u64));
        DateTime {
            time: Time::new(
                new_time.nano(),
                new_time.seconds(),
                new_time.minutes(),
                new_time.hours() % 24,
            ),
            date: new_date,
        }
    }

    /// The moment whose time of day is that of [`Time::sub`], and whose
    /// date is the day before where that time shows a later hour than the
    /// time of `self`, and the same day otherwise.
    pub fn sub(&self, rhs: Duration) -> (earlier: Self)
        requires
            rhs.total_nanos() <= u64::MAX,
            self.steps_back(rhs.total_nanos()) ==> self.date().day_number() - 1 > days_before_year(
                -0x8000_0000,
            ),
        ensures
            earlier.time().shows(self.time().total_after_sub(rhs.total_nanos())),
            earlier.date().day_number() == self.date().day_number() - if self.steps_back(rhs.total_nanos()) {
                1int
            } else {
                0int
            },
            !self.steps_back(rhs.total_nanos()) ==> earlier.date() == self.date(),
            self.steps_back(rhs.total_nanos()) && self.date().day() <= month_length(
                self.date().month().number(),
                self.date().year() as int,
            ) ==> earlier.date().valid(),
    {
        let new_time = self.time.sub(rhs);
        let day_underflow: u8 = if new_time.hours() > self.time.hours() {
            1
        } else {
            0
        };
        let new_date = self.date.sub(Duration::from_days(day_underflow as u64));
        DateTime {
            time: Time::new(
                new_time.nano(),
                new_time.seconds(),
                new_time.minutes(),
                new_time.hours() % 24,
            ),
            date: new_date,
        }
    }

    /// The moment moved by a named offset: [`DateTime::add`] with its
    /// distance where the offset is ahead of universal time,
    /// [`DateTime::sub`] where it is behind.
    pub fn with_offset(&self, offset: TimeOffset) -> (moved: DateTime)
        requires
            !offset.ahead() && self.steps_back(offset.distance() * 1_000_000_000)
                ==> self.date().day_number() - 1 > days_before_year(-0x8000_0000),
        ensures
            offset.ahead() ==> moved.time().shows(
                self.time().total_nanos() + offset.distance() * 1_000_000_000,
            ) && moved.date() == self.date(),
            !offset.ahead() ==> {
                let taken = offset.distance() * 1_000_000_000;
                &&& moved.time().shows(self.time().total_after_sub(taken))
                &&& moved.date().day_number() == self.date().day_number() - if self.steps_back(
                    taken,
                ) {
                    1int
                } else {
                    0int
                }
                &&& !self.steps_back(taken) ==> moved.date() == self.date()
            },
    {
        let (positive, duration) = offset.get_offset();
        if positive {
            self.add(duration)
        } else {
            self.sub(duration)
        }
    }
}

/// A clock that can be asked for the moment.
pub trait TimeApi {
    /// The moment that the clock shows.
    spec fn current(&self) -> DateTime;

    /// Get the current date and time.
    fn now(&self) -> (moment: DateTime)
        ensures
            moment == self.current(),
    ;

    /// Get the current date and time with an offset.
    fn with_offset(&self, offset: TimeOffset) -> (moment: DateTime)
        requires
            !offset.ahead() && self.current().steps_back(offset.distance() * 1_000_000_000)
                ==> self.current().date().day_number() - 1 > days_before_year(-0x8000_0000),
        ensures
            offset.ahead() ==> moment.time().shows(
                self.current().time().total_nanos() + offset.distance() * 1_000_000_000,
            ) && moment.date() == self.current().date(),
            !offset.ahead() ==> {
                let taken = offset.distance() * 1_000_000_000;
                &&& moment.time().shows(self.current().time().total_after_sub(taken))
                &&& moment.date().day_number() == self.current().date().day_number()
                    - if self.current().steps_back(taken) {
                    1int
                } else {
                    0int
                }
                &&& !self.current().steps_back(taken) ==> moment.date() == self.current().date()
            },
    ;
}

} // verus!
