//! Times of day.

use vstd::prelude::*;
use crate::cmos::DateTime as Rtc;
use crate::decimal::{padded, push_char, push_padded};
use crate::time::duration::Duration;

verus! {

/// A time of day: hours, minutes, seconds, and the nanoseconds of the
/// running second.
#[derive(Debug, Clone, Copy, PartialEq, Eq, Structural)]
pub struct Time {
    nano: u32,
    seconds: u8,
    minutes: u8,
    hours: u8,
}

impl Time {
    /// The nanoseconds of the running second.
    pub closed spec fn spec_nano(&self) -> u32 {
        self.nano
    }

    /// The seconds of the running minute.
    pub closed spec fn spec_seconds(&self) -> u8 {
        self.seconds
    }

    /// The minutes of the running hour.
    pub closed spec fn spec_minutes(&self) -> u8 {
        self.minutes
    }

    /// The hours of the day.
    pub closed spec fn spec_hours(&self) -> u8 {
        self.hours
    }

    /// The nanoseconds since midnight that the four fields add up to.
    pub open spec fn total_nanos(&self) -> int {
        ((self.hours() * 60 + self.minutes()) * 60 + self.seconds()) * 1_000_000_000 + self.nano()
    }

    /// Whether the time is the time of day at which `total` nanoseconds
    /// have passed since some midnight.
    pub open spec fn shows(&self, total: int) -> bool {
        &&& self.nano() == total % 1_000_000_000
        &&& self.seconds() == (total / 1_000_000_000) % 60
        &&& self.minutes() == (total / 60_000_000_000) % 60
        &&& self.hours() == (total / 3_600_000_000_000) % 24
    }

    /// A time is known by its four fields, and so by the nanoseconds since
    /// midnight that it shows.
    pub proof fn lemma_equal_by_fields(self, other: Time)
        requires
            self.nano() == other.nano(),
            self.seconds() == other.seconds(),
            self.minutes() == other.minutes(),
            self.hours() == other.hours(),
        ensures
            self == other,
    {
    }

    /// No two times show the same nanoseconds since midnight.
    pub proof fn lemma_shows_one_time(self, other: Time, total: int)
        requires
            self.shows(total),
            other.shows(total),
        ensures
            self == other,
    {
    }

    /// The time with the given fields, which are taken as they are.
    pub fn new(nano: u32, seconds: u8, minutes: u8, hours: u8) -> (time: Self)
        ensures
            time.nano() == nano,
            time.seconds() == seconds,
            time.minutes() == minutes,
            time.hours() == hours,
    {
        Self { nano, seconds, minutes, hours }
    }

    /// The time of day of a reading of the real-time clock, on the second.
    pub fn from_rtc(rtc: Rtc) -> (time: Self)
        ensures
            time.nano() == 0,
            time.seconds() == rtc.seconds,
            time.minutes() == rtc.minutes,
            time.hours() == rtc.hours,
    {
        Self { nano: 0, seconds: rtc.seconds, minutes: rtc.minutes, hours: rtc.hours }
    }

    /// The nanoseconds of the running second.
    #[verifier::when_used_as_spec(spec_nano)]
    pub fn nano(&self) -> (nano: u32)
        ensures
            nano == self.nano(),
    {
        self.nano
    }

    /// The whole microseconds of the running second.
    pub fn micro(&self) -> (micro: u32)
        ensures
            micro == self.nano() / 1000,
    {
        self.nano / 1000
    }

    /// The whole milliseconds of the running second.
    pub fn milli(&self) -> (milli: u32)
        ensures
            milli == self.nano() / 1000000,
    {
        self.nano / 1000000
    }

    /// The seconds of the running minute.
    #[verifier::when_used_as_spec(spec_seconds)]
    pub fn seconds(&self) -> (seconds: u8)
        ensures
            seconds == self.seconds(),
    {
        self.seconds
    }

    /// The minutes of the running hour.
    #[verifier::when_used_as_spec(spec_minutes)]
    pub fn minutes(&self) -> (minutes: u8)
        ensures
            minutes == self.minutes(),
    {
        self.minutes
    }

    /// The hours of the day.
    #[verifier::when_used_as_spec(spec_hours)]
    pub fn hours(&self) -> (hours: u8)
        ensures
            hours == self.hours(),
    {
        self.hours
    }

    /// Hours, minutes and seconds.
    pub fn as_hms(&self) -> (hms: (u8, u8, u8))
        ensures
            hms == (self.hours(), self.minutes(), self.seconds()),
    {
        (self.hours, self.minutes, self.seconds)
    }

    /// Hours, minutes, seconds and whole milliseconds.
    pub fn as_hms_milli(&self) -> (hms: (u8, u8, u8, u32))
        ensures
            hms == (self.hours(), self.minutes(), self.seconds(), (self.nano() / 1000000) as u32),
    {
        (self.hours, self.minutes, self.seconds, self.milli())
    }

    /// Hours, minutes, seconds and whole microseconds.
    pub fn as_hms_micro(&self) -> (hms: (u8, u8, u8, u32))
        ensures
            hms == (self.hours(), self.minutes(), self.seconds(), (self.nano() / 1000) as u32),
    {
        (self.hours, self.minutes, self.seconds, self.micro())
    }

    /// Hours, minutes, seconds and nanoseconds.
    pub fn as_hms_nano(&self) -> (hms: (u8, u8, u8, u32))
        ensures
            hms == (self.hours(), self.minutes(), self.seconds(), self.nano()),
    {
        (self.hours, self.minutes, self.seconds, self.nano())
    }

    /// The time as it is written: hours, minutes and seconds in two digits
    /// each, with colons between them, then a point and the milliseconds
    /// in three digits.
    pub open spec fn text(&self) -> Seq<char> {
        padded(self.hours() as nat, 2) + seq![':'] + padded(self.minutes() as nat, 2) + seq![':']
            + padded(self.seconds() as nat, 2) + seq!['.'] + padded(
            (self.nano() / 1000000) as nat,
            3,
        )
    }

    /// The time as it is written.
    pub fn to_string(&self) -> (text: String)
        ensures
            text@ == self.text(),
    {
        let mut text = String::new();
        push_padded(&mut text, self.hours as u64, 2);
        push_char(&mut text, ':');
        push_padded(&mut text, self.minutes as u64, 2);
        push_char(&mut text, ':');
        push_padded(&mut text, self.seconds as u64, 2);
        push_char(&mut text, '.');
        push_padded(&mut text, self.milli() as u64, 3);
        assert(text@ =~= self.text());
        text
    }

    /// The time of day that is `rhs` later, going round the clock as often
    /// as it takes. The fields of `self` count for what they say, also
    /// where they are beyond the dial: 90 seconds are a minute and a half.
    pub fn add(&self, rhs: Duration) -> (later: Self)
        requires
            self.nano() + rhs.nanos() <= u64::MAX,
            self.seconds() + rhs.seconds() + (self.nano() + rhs.nanos()) / 1_000_000_000
                <= u64::MAX,
        ensures
            later.shows(self.total_nanos() + rhs.total_nanos()),
    {
        let total_nanos: u64 = self.nano as u64 + rhs.nanos();
        let extra_seconds: u64 = total_nanos / 1_000_000_000;
        let nano: u32 = (total_nanos % 1_000_000_000) as u32;

        let total_seconds: u64 = self.seconds as u64 + rhs.seconds() + extra_seconds;
        let seconds: u8 = (total_seconds % 60) as u8;

        let total_minutes: u64 = self.minutes as u64 + (total_seconds / 60);
        let minutes: u8 = (total_minutes % 60) as u8;

        let hours: u64 = (self.hours as u64 + (total_minutes / 60)) % 24;

        proof {
            lemma_clock_carry(
                self.hours as int,
                self.minutes as int,
                self.seconds as int + rhs.seconds() as int,
                self.nano as int + rhs.nanos() as int,
            );
        }
        Self { nano, seconds, minutes, hours: hours as u8 }
    }

    /// The time of day after `rhs` has been taken from the seconds and
    /// nanoseconds of `self`, of which no less than nothing is left: the
    /// minutes and hours are not drawn on. What is left of the seconds is
    /// then carried as in [`Time::add`].
    pub fn sub(&self, rhs: Duration) -> (earlier: Self)
        requires
            rhs.total_nanos() <= u64::MAX,
        ensures
            earlier.shows(self.total_after_sub(rhs.total_nanos())),
    {
        let rhs_total_nanos: u64 = rhs.seconds() * 1_000_000_000 + rhs.nanos();
        let self_total_nanos: u64 = self.seconds as u64 * 1_000_000_000 + self.nano as u64;
        let total_nanos: u64 = if self_total_nanos > rhs_total_nanos {
            self_total_nanos - rhs_total_nanos
        } else {
            0
        };

        let nano: u32 = (total_nanos % 1_000_000_000) as u32;
        let total_seconds: u64 = total_nanos / 1_000_000_000;

        let seconds: u8 = (total_seconds % 60) as u8;
        let total_minutes: u64 = self.minutes as u64 + (total_seconds / 60);

        let minutes: u8 = (total_minutes % 60) as u8;
        let hours: u8 = ((self.hours as u64 + (total_minutes / 60)) % 24) as u8;

        proof {
            lemma_clock_carry(self.hours as int, self.minutes as int, 0, total_nanos as int);
        }
        Self { nano, seconds, minutes, hours }
    }

    /// The nanoseconds since midnight that [`Time::sub`] arrives at: the
    /// hours and minutes of `self`, and what is left of its seconds and
    /// nanoseconds after `taken` nanoseconds are taken from them.
    pub open spec fn total_after_sub(&self, taken: int) -> int {
        (self.hours() * 60 + self.minutes()) * 60_000_000_000 + Self::seconds_left(
            self.seconds() * 1_000_000_000 + self.nano(),
            taken,
        )
    }

    /// What is left of `have` after `take` is taken from it, and nothing
    /// where `take` is the greater.
    pub open spec fn seconds_left(have: int, take: int) -> int {
        if have > take {
            have - take
        } else {
            0
        }
    }
}

/// The quotient and the remainder of `a * d + b` by `d`.
pub proof fn lemma_div_mod_of_sum(a: int, b: int, d: int)
    requires
        d > 0,
    ensures
        (a * d + b) / d == a + b / d,
        (a * d + b) % d == b % d,
{
    vstd::arithmetic::div_mod::lemma_fundamental_div_mod(b, d);
    vstd::arithmetic::div_mod::lemma_mod_bound(b, d);
    assert(a * d + b == (a + b / d) * d + b % d) by (nonlinear_arith)
        requires
            b == d * (b / d) + b % d,
    ;
    vstd::arithmetic::div_mod::lemma_fundamental_div_mod_converse(
        a * d + b,
        d,
        a + b / d,
        b % d,
    );
}

/// Carrying nanoseconds into seconds, seconds into minutes and minutes into
/// hours, step by step, gives the digits of the total in nanoseconds.
pub proof fn lemma_clock_carry(hours: int, minutes: int, seconds: int, nanos: int)
    requires
        0 <= hours,
        0 <= minutes,
        0 <= seconds,
        0 <= nanos,
    ensures
        ({
            let total = ((hours * 60 + minutes) * 60 + seconds) * 1_000_000_000 + nanos;
            let total_seconds = seconds + nanos / 1_000_000_000;
            let total_minutes = minutes + total_seconds / 60;
            &&& total % 1_000_000_000 == nanos % 1_000_000_000
            &&& (total / 1_000_000_000) % 60 == total_seconds % 60
            &&& (total / 60_000_000_000) % 60 == total_minutes % 60
            &&& (total / 3_600_000_000_000) % 24 == (hours + total_minutes / 60) % 24
        }),
{
    let whole = (hours * 60 + minutes) * 60 + seconds;
    let total = whole * 1_000_000_000 + nanos;
    let total_seconds = seconds + nanos / 1_000_000_000;
    let total_minutes = minutes + total_seconds / 60;
    lemma_div_mod_of_sum(whole, nanos, 1_000_000_000);
    let in_seconds = total / 1_000_000_000;
    assert(in_seconds == (hours * 60 + minutes) * 60 + total_seconds);
    lemma_div_mod_of_sum(hours * 60 + minutes, total_seconds, 60);
    let in_minutes = in_seconds / 60;
    assert(in_minutes == hours * 60 + total_minutes);
    lemma_div_mod_of_sum(hours, total_minutes, 60);
    let in_hours = in_minutes / 60;
    assert(in_hours == hours + total_minutes / 60);
    vstd::arithmetic::div_mod::lemma_div_denominator(total, 1_000_000_000, 60);
    assert(total / 60_000_000_000 == in_minutes);
    vstd::arithmetic::div_mod::lemma_div_denominator(total, 60_000_000_000, 60);
    assert(total / 3_600_000_000_000 == in_hours);
}

} // verus!
