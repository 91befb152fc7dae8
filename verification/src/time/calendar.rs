//! The months of the year and the days of the week.

use vstd::prelude::*;

verus! {

/// A month of the year.
#[derive(Debug, Clone, Copy, PartialEq, Eq, Structural)]
pub enum Month {
    January,
    February,
    March,
    April,
    May,
    June,
    July,
    August,
    September,
    October,
    November,
    December,
}

impl Month {
    /// The number of the month, from 1 for January to 12 for December.
    pub open spec fn number(self) -> int {
        match self {
            Month::January => 1,
            Month::February => 2,
            Month::March => 3,
            Month::April => 4,
            Month::May => 5,
            Month::June => 6,
            Month::July => 7,
            Month::August => 8,
            Month::September => 9,
            Month::October => 10,
            Month::November => 11,
            Month::December => 12,
        }
    }

    /// The month with the given number, if there is one.
    pub fn from_u8(month: u8) -> (result: Option<Self>)
        ensures
            result.is_some() <==> 1 <= month <= 12,
            result.is_some() ==> result.unwrap().number() == month,
    {
        match month {
            1 => Some(Month::January),
            2 => Some(Month::February),
            3 => Some(Month::March),
            4 => Some(Month::April),
            5 => Some(Month::May),
            6 => Some(Month::June),
            7 => Some(Month::July),
            8 => Some(Month::August),
            9 => Some(Month::September),
            10 => Some(Month::October),
            11 => Some(Month::November),
            12 => Some(Month::December),
            _ => None,
        }
    }

    /// The number of the month.
    pub fn as_u8(&self) -> (number: u8)
        ensures
            number == self.number(),
    {
        match self {
            Month::January => 1,
            Month::February => 2,
            Month::March => 3,
            Month::April => 4,
            Month::May => 5,
            Month::June => 6,
            Month::July => 7,
            Month::August => 8,
            Month::September => 9,
            Month::October => 10,
            Month::November => 11,
            Month::December => 12,
        }
    }
}

/// A day of the week.
#[derive(Debug, Clone, Copy, PartialEq, Eq, Structural)]
pub enum Weekday {
    Saturday,
    Sunday,
    Monday,
    Tuesday,
    Wednesday,
    Thursday,
    Friday,
}

impl Weekday {
    /// The number of the day, from 0 for Saturday to 6 for Friday.
    pub open spec fn number(self) -> int {
        match self {
            Weekday::Saturday => 0,
            Weekday::Sunday => 1,
            Weekday::Monday => 2,
            Weekday::Tuesday => 3,
            Weekday::Wednesday => 4,
            Weekday::Thursday => 5,
            Weekday::Friday => 6,
        }
    }

    /// The weekday with the given number, if there is one.
    pub fn from_u8(weekday: u8) -> (result: Option<Self>)
        ensures
            result.is_some() <==> 0 <= weekday <= 6,
            result.is_some() ==> result.unwrap().number() == weekday,
    {
        match weekday {
            0 => Some(Weekday::Saturday),
            1 => Some(Weekday::Sunday),
            2 => Some(Weekday::Monday),
            3 => Some(Weekday::Tuesday),
            4 => Some(Weekday::Wednesday),
            5 => Some(Weekday::Thursday),
            6 => Some(Weekday::Friday),
            _ => None,
        }
    }

    /// The number of the weekday.
    pub fn as_u8(&self) -> (number: u8)
        ensures
            number == self.number(),
    {
        match self {
            Weekday::Saturday => 0,
            Weekday::Sunday => 1,
            Weekday::Monday => 2,
            Weekday::Tuesday => 3,
            Weekday::Wednesday => 4,
            Weekday::Thursday => 5,
            Weekday::Friday => 6,
        }
    }
}

} // verus!
