//! The clock that follows the real-time clock.

use vstd::prelude::*;
use crate::event::{Event, EventHandler};
use crate::time::date::days_before_year;
use crate::time::{DateTime, Month, TimeApi, TimeOffset};

verus! {

/// A clock that shows the moment of the last reading of the real-time
/// clock that it was told of, and the first of January 1970 before any.
pub struct SimpleClock {
    current_time: DateTime,
}

impl SimpleClock {
    /// A clock that shows midnight of the first of January 1970.
    pub fn new() -> (clock: Self)
        ensures
            clock.current().time().nano() == 0,
            clock.current().time().seconds() == 0,
            clock.current().time().minutes() == 0,
            clock.current().time().hours() == 0,
            clock.current().date().day() == 1,
            clock.current().date().month() == Month::January,
            clock.current().date().year() == 1970,
    {
        Self { current_time: DateTime::new(0, 0, 0, 0, 1, Month::January, 1970) }
    }
}

impl TimeApi for SimpleClock {
    closed spec fn current(&self) -> DateTime {
        self.current_time
    }

    fn now(&self) -> (moment: DateTime) {
        self.current_time
    }

    fn with_offset(&self, offset: TimeOffset) -> (moment: DateTime) {
        self.current_time.with_offset(offset)
    }
}

impl EventHandler for SimpleClock {
    /// The clock takes every event but a reading of the real-time clock
    /// whose month is none of the twelve.
    open spec fn accepts(&self, event: Event) -> bool {
        match event {
            Event::Rtc(reading) => 1 <= reading.month <= 12,
            _ => true,
        }
    }

    /// A reading of the real-time clock becomes the moment that the clock
    /// shows. Other events leave the clock as it is.
    fn handle(&mut self, event: Event)
        ensures
            match event {
                Event::Rtc(reading) => {
                    &&& final(self).current().time().nano() == 0
                    &&& final(self).current().time().seconds() == reading.seconds
                    &&& final(self).current().time().minutes() == reading.minutes
                    &&& final(self).current().time().hours() == reading.hours
                    &&& final(self).current().date().day() == reading.day
                    &&& final(self).current().date().month().number() == reading.month
                    &&& final(self).current().date().year() == reading.year
                },
                _ => final(self).current() == old(self).current(),
            },
    {
        match event {
            Event::Rtc(date_time) => {
                self.current_time = DateTime::from_rtc(date_time);
            },
            _ => {},
        }
    }
}

} // verus!
