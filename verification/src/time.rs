//! Calendar and clock values: durations, times of day, dates in the
//! Gregorian calendar, and the named offsets from universal time.

pub mod calendar;
pub mod date;
pub mod date_time;
pub mod duration;
pub mod offset;
pub mod time_of_day;

pub use calendar::{Month, Weekday};
pub use date::Date;
pub use date_time::{DateTime, TimeApi};
pub use duration::Duration;
pub use offset::TimeOffset;
pub use time_of_day::Time;
