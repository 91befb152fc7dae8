//! Spans of time.

use vstd::prelude::*;

verus! {

/// A span of time in two parts that are counted apart: whole seconds, and
/// nanoseconds. Neither part is carried into the other.
#[derive(Debug, Clone, Copy, PartialEq, Eq, Structural)]
pub struct Duration {
    nanos: u64,
    seconds: u64,
}

impl Duration {
    /// The nanoseconds part.
    pub closed spec fn spec_nanos(&self) -> u64 {
        self.nanos
    }

    /// The seconds part.
    pub closed spec fn spec_seconds(&self) -> u64 {
        self.seconds
    }

    /// The whole span in nanoseconds.
    pub open spec fn total_nanos(&self) -> int {
        self.seconds() * 1_000_000_000 + self.nanos()
    }

    /// A duration is known by its two parts.
    pub proof fn lemma_equal_by_parts(self, other: Duration)
        requires
            self.nanos() == other.nanos(),
            self.seconds() == other.seconds(),
        ensures
            self == other,
    {
    }

    /// The duration of `seconds` seconds and `nanos` nanoseconds.
    pub fn new(nanos: u64, seconds: u64) -> (duration: Self)
        ensures
            duration.nanos() == nanos,
            duration.seconds() == seconds,
    {
        Self { nanos, seconds }
    }

    /// The duration of `nanos` nanoseconds.
    pub fn from_nanos(nanos: u64) -> (duration: Self)
        ensures
            duration.nanos() == nanos,
            duration.seconds() == 0,
    {
        Self { nanos, seconds: 0 }
    }

    /// The duration of `micros` microseconds, held as nanoseconds.
    pub fn from_micros(micros: u64) -> (duration: Self)
        requires
            micros * 1000 <= u64::MAX,
        ensures
            duration.nanos() == micros * 1000,
            duration.seconds() == 0,
    {
        Self { nanos: micros * 1000, seconds: 0 }
    }

    /// The duration of `millis` milliseconds, held as nanoseconds.
    pub fn from_millis(millis: u64) -> (duration: Self)
        requires
            millis * 1000000 <= u64::MAX,
        ensures
            duration.nanos() == millis * 1000000,
            duration.seconds() == 0,
    {
        Self { nanos: millis * 1000000, seconds: 0 }
    }

    /// The duration of `seconds` seconds.
    pub fn from_seconds(seconds: u64) -> (duration: Self)
        ensures
            duration.nanos() == 0,
            duration.seconds() == seconds,
    {
        Self { nanos: 0, seconds }
    }

    /// The duration of `minutes` minutes, held as seconds.
    pub fn from_minutes(minutes: u64) -> (duration: Self)
        requires
            minutes * 60 <= u64::MAX,
        ensures
            duration.nanos() == 0,
            duration.seconds() == minutes * 60,
    {
        Self { nanos: 0, seconds: minutes * 60 }
    }

    /// The duration of `hours` hours, held as seconds.
    pub fn from_hours(hours: u64) -> (duration: Self)
        requires
            hours * 3600 <= u64::MAX,
        ensures
            duration.nanos() == 0,
            duration.seconds() == hours * 3600,
    {
        Self { nanos: 0, seconds: hours * 3600 }
    }

    /// The duration of `hours` hours, `minutes` minutes and `seconds`
    /// seconds, held as seconds.
    pub fn from_hms(hours: u64, minutes: u64, seconds: u64) -> (duration: Self)
        requires
            hours * 3600 + minutes * 60 + seconds <= u64::MAX,
        ensures
            duration.nanos() == 0,
            duration.seconds() == hours * 3600 + minutes * 60 + seconds,
    {
        Self { nanos: 0, seconds: hours * 3600 + minutes * 60 + seconds }
    }

    /// The duration of `days` days of 86400 seconds, held as seconds.
    pub fn from_days(days: u64) -> (duration: Self)
        requires
            days * 86400 <= u64::MAX,
        ensures
            duration.nanos() == 0,
            duration.seconds() == days * 86400,
    {
        Self { nanos: 0, seconds: days * 86400 }
    }

    /// The nanoseconds part.
    #[verifier::when_used_as_spec(spec_nanos)]
    pub fn nanos(&self) -> (nanos: u64)
        ensures
            nanos == self.nanos(),
    {
        self.nanos
    }

    /// The whole microseconds of the nanoseconds part.
    pub fn micros(&self) -> (micros: u64)
        ensures
            micros == self.nanos() / 1000,
    {
        self.nanos / 1000
    }

    /// The whole milliseconds of the nanoseconds part.
    pub fn millis(&self) -> (millis: u64)
        ensures
            millis == self.nanos() / 1000000,
    {
        self.nanos / 1000000
    }

    /// The seconds part.
    #[verifier::when_used_as_spec(spec_seconds)]
    pub fn seconds(&self) -> (seconds: u64)
        ensures
            seconds == self.seconds(),
    {
        self.seconds
    }

    /// The whole minutes of the seconds part.
    pub fn minutes(&self) -> (minutes: u64)
        ensures
            minutes == self.seconds() / 60,
    {
        self.seconds / 60
    }

    /// The whole hours of the seconds part.
    pub fn hours(&self) -> (hours: u64)
        ensures
            hours == self.seconds() / 3600,
    {
        self.seconds / 3600
    }

    /// The whole days of the seconds part.
    pub fn days(&self) -> (days: u64)
        ensures
            days == self.seconds() / 86400,
    {
        self.seconds / 86400
    }

    /// The sum, part by part; `None` when either part leaves the range of
    /// `u64`.
    pub fn add(&self, rhs: Self) -> (sum: Option<Self>)
        ensures
            sum.is_some() <==> self.nanos() + rhs.nanos() <= u64::MAX && self.seconds()
                + rhs.seconds() <= u64::MAX,
            sum.is_some() ==> sum.unwrap().nanos() == self.nanos() + rhs.nanos()
                && sum.unwrap().seconds() == self.seconds() + rhs.seconds(),
    {
        let nanos = match self.nanos.checked_add(rhs.nanos) {
            Some(nanos) => nanos,
            None => return None,
        };
        let seconds = match self.seconds.checked_add(rhs.seconds) {
            Some(seconds) => seconds,
            None => return None,
        };
        Some(Self::new(nanos, seconds))
    }

    /// The difference, part by part; `None` when either part of `rhs` is
    /// greater than that of `self`.
    pub fn sub(&self, rhs: Self) -> (difference: Option<Self>)
        ensures
            difference.is_some() <==> rhs.nanos() <= self.nanos() && rhs.seconds()
                <= self.seconds(),
            difference.is_some() ==> difference.unwrap().nanos() == self.nanos() - rhs.nanos()
                && difference.unwrap().seconds() == self.seconds() - rhs.seconds(),
    {
        let nanos = match self.nanos.checked_sub(rhs.nanos) {
            Some(nanos) => nanos,
            None => return None,
        };
        let seconds = match self.seconds.checked_sub(rhs.seconds) {
            Some(seconds) => seconds,
            None => return None,
        };
        Some(Self::new(nanos, seconds))
    }

    /// Both parts times `rhs`; `None` when either product leaves the range
    /// of `u64`.
    pub fn mul(&self, rhs: u64) -> (product: Option<Self>)
        ensures
            product.is_some() <==> self.nanos() * rhs <= u64::MAX && self.seconds() * rhs
                <= u64::MAX,
            product.is_some() ==> product.unwrap().nanos() == self.nanos() * rhs
                && product.unwrap().seconds() == self.seconds() * rhs,
    {
        let nanos = match self.nanos.checked_mul(rhs) {
            Some(nanos) => nanos,
            None => return None,
        };
        let seconds = match self.seconds.checked_mul(rhs) {
            Some(seconds) => seconds,
            None => return None,
        };
        Some(Self::new(nanos, seconds))
    }

    /// Both parts divided by `rhs`, rounding down; `None` when `rhs` is
    /// zero.
    pub fn div(&self, rhs: u64) -> (quotient: Option<Self>)
        ensures
            quotient.is_some() <==> rhs != 0,
            quotient.is_some() ==> quotient.unwrap().nanos() == self.nanos() / rhs
                && quotient.unwrap().seconds() == self.seconds() / rhs,
    {
        let nanos = match self.nanos.checked_div(rhs) {
            Some(nanos) => nanos,
            None => return None,
        };
        let seconds = match self.seconds.checked_div(rhs) {
            Some(seconds) => seconds,
            None => return None,
        };
        Some(Self::new(nanos, seconds))
    }
}

} // verus!
