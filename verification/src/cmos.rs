//! The reading of the real-time clock: the registers of the clock chip,
//! and the decoding of what they hold into a date and a time.
//!
//! The chip is read by the caller. What it hands over is decoded here:
//! binary-coded decimals are turned into numbers, a twelve-hour clock into
//! a twenty-four-hour one, and the two digits of the year into a year.

use vstd::prelude::*;
use crate::bits::{get_bit, has_bit};
use crate::decimal::{padded, push_char, push_padded};

verus! {

/// The century that a year of two digits belongs to where nothing says
/// otherwise.
pub const CENTURY: u16 = 2000;

/// A reading of the real-time clock: the six registers that hold the
/// time of day and the date.
#[derive(Debug, Clone, Copy, PartialEq, Eq, PartialOrd, Ord, Structural)]
pub struct DateTime {
    pub seconds: u8,
    pub minutes: u8,
    pub hours: u8,
    pub day: u8,
    pub month: u8,
    pub year: u16,
}

impl DateTime {
    /// The reading as it is written: month, day and year with strokes
    /// between them, a space, and hours, minutes and seconds with colons
    /// between them; the year in four digits, the others in two.
    pub open spec fn text(&self) -> Seq<char> {
        padded(self.month as nat, 2) + seq!['/'] + padded(self.day as nat, 2) + seq!['/'] + padded(
            self.year as nat,
            4,
        ) + seq![' '] + padded(self.hours as nat, 2) + seq![':'] + padded(self.minutes as nat, 2)
            + seq![':'] + padded(self.seconds as nat, 2)
    }

    /// The reading as it is written.
    pub fn to_string(&self) -> (text: String)
        ensures
            text@ == self.text(),
    {
        let mut text = String::new();
        push_padded(&mut text, self.month as u64, 2);
        push_char(&mut text, '/');
        push_padded(&mut text, self.day as u64, 2);
        push_char(&mut text, '/');
        push_padded(&mut text, self.year as u64, 4);
        push_char(&mut text, ' ');
        push_padded(&mut text, self.hours as u64, 2);
        push_char(&mut text, ':');
        push_padded(&mut text, self.minutes as u64, 2);
        push_char(&mut text, ':');
        push_padded(&mut text, self.seconds as u64, 2);
        assert(text@ =~= self.text());
        text
    }
}

/// The registers of the clock chip.
#[derive(Debug, Clone, Copy, PartialEq, Eq, Structural)]
pub enum CmosRegister {
    Seconds,
    Minutes,
    Hours,
    Day,
    Month,
    Year,
    StatusA,
    StatusB,
    StatusC,
}

impl CmosRegister {
    /// The number by which the chip knows the register.
    pub open spec fn number(self) -> u8 {
        match self {
            CmosRegister::Seconds => 0x00,
            CmosRegister::Minutes => 0x02,
            CmosRegister::Hours => 0x04,
            CmosRegister::Day => 0x07,
            CmosRegister::Month => 0x08,
            CmosRegister::Year => 0x09,
            CmosRegister::StatusA => 0x0A,
            CmosRegister::StatusB => 0x0B,
            CmosRegister::StatusC => 0x0C,
        }
    }

    /// The number by which the chip knows the register.
    pub fn address(&self) -> (address: u8)
        ensures
            address == self.number(),
    {
        match self {
            CmosRegister::Seconds => 0x00,
            CmosRegister::Minutes => 0x02,
            CmosRegister::Hours => 0x04,
            CmosRegister::Day => 0x07,
            CmosRegister::Month => 0x08,
            CmosRegister::Year => 0x09,
            CmosRegister::StatusA => 0x0A,
            CmosRegister::StatusB => 0x0B,
            CmosRegister::StatusC => 0x0C,
        }
    }
}

/// The number that a binary-coded decimal stands for: ten times its high
/// four bits plus its low four bits.
pub open spec fn bcd_value(coded: int) -> int {
    (coded / 16) * 10 + coded % 16
}

/// Whether status register B says that the chip counts in binary, and not
/// in binary-coded decimals: its bit 2.
pub open spec fn counts_in_binary(status_b: u8) -> bool {
    (status_b / 4) % 2 == 1
}

/// Whether status register B says that the chip counts twenty-four hours,
/// and not twice twelve: its bit 1.
pub open spec fn counts_full_day(status_b: u8) -> bool {
    (status_b / 2) % 2 == 1
}

/// The number in a register that holds anything but the hours.
pub open spec fn decoded_field(raw: int, status_b: u8) -> int {
    if counts_in_binary(status_b) {
        raw
    } else {
        bcd_value(raw)
    }
}

/// The hours. The high bit of the register is kept apart from the number
/// in the low seven bits. On a twelve-hour clock an hour without the high
/// bit is moved on by twelve, round the day; one with it is left as it is.
pub open spec fn decoded_hours(raw: u8, status_b: u8) -> int {
    let number = if counts_in_binary(status_b) {
        raw as int
    } else {
        bcd_value((raw % 128) as int) + 128 * (raw / 128)
    };
    if !counts_full_day(status_b) && number < 128 {
        (number + 12) % 24
    } else {
        number
    }
}

/// The years that are added to the two digits of the year, by the number
/// of the century register: 1900 for none, else 2000.
pub open spec fn century_of(century_register: u8) -> int {
    if century_register == 0 {
        1900
    } else {
        2000
    }
}

/// The number that the binary-coded decimal `coded` stands for.
pub fn from_bcd(coded: u8) -> (number: u8)
    ensures
        number == bcd_value(coded as int),
{
    assert(coded & 0x0F == coded % 16) by (bit_vector);
    (coded & 0x0F) + ((coded / 16) * 10)
}

/// Whether status register B says that the chip counts in binary.
pub fn is_binary(status_b: u8) -> (binary: bool)
    ensures
        binary == counts_in_binary(status_b),
{
    assert((status_b & 0x04 == 0) == ((status_b / 4) % 2 != 1)) by (bit_vector);
    status_b & 0x04 != 0
}

/// Whether status register B says that the chip counts twenty-four hours.
pub fn is_full_day(status_b: u8) -> (full_day: bool)
    ensures
        full_day == counts_full_day(status_b),
{
    assert((status_b & 0x02 == 0) == ((status_b / 2) % 2 != 1)) by (bit_vector);
    status_b & 0x02 != 0
}

/// The hours that the hours register stands for.
pub fn decode_hours(raw: u8, status_b: u8) -> (hours: u8)
    ensures
        hours == decoded_hours(raw, status_b),
{
    let mut hours: u8 = raw;
    if !is_binary(status_b) {
        assert(raw & 0x0F == raw % 16) by (bit_vector);
        assert(raw & 0x70 == (raw % 128) - (raw % 16)) by (bit_vector);
        assert(raw & 0x80 == 128 * (raw / 128)) by (bit_vector);
        let number: u8 = (raw & 0x0F) + (((raw & 0x70) / 16) * 10);
        let mark: u8 = raw & 0x80;
        assert(number | mark == number + mark) by (bit_vector)
            requires
                number < 128,
                mark == 0 || mark == 128,
        ;
        assert(number == bcd_value((raw % 128) as int));
        hours = number | mark;
    }
    let decoded: u8 = hours;
    assert((decoded & 0x80 == 0) == (decoded < 128)) by (bit_vector);
    assert(decoded < 128 ==> decoded & 0x7F == decoded) by (bit_vector);
    if !is_full_day(status_b) && (hours & 0x80 == 0) {
        hours = ((hours & 0x07F) + 12) % 24;
    }
    hours
}

/// The number that the year register stands for.
pub fn decode_year(raw: u16, status_b: u8, century_register: u8) -> (year: u16)
    requires
        raw <= 255,
    ensures
        year == decoded_field(raw as int, status_b) + century_of(century_register),
{
    let mut year: u16 = raw;
    if !is_binary(status_b) {
        assert(raw & 0x0F == raw % 16) by (bit_vector);
        year = (raw & 0x0F) + ((raw / 16) * 10);
    }
    year + match century_register {
        0 => 1900,
        0x32 => 2000,
        _ => CENTURY,
    }
}

/// Decodes a reading of the six registers, given status register B, which
/// says how the chip counts, and the number of the century register.
pub fn decode_rtc(raw: DateTime, status_b: u8, century_register: u8) -> (rtc: DateTime)
    requires
        raw.year <= 255,
    ensures
        rtc.seconds == decoded_field(raw.seconds as int, status_b),
        rtc.minutes == decoded_field(raw.minutes as int, status_b),
        rtc.hours == decoded_hours(raw.hours, status_b),
        rtc.day == decoded_field(raw.day as int, status_b),
        rtc.month == decoded_field(raw.month as int, status_b),
        rtc.year == decoded_field(raw.year as int, status_b) + century_of(century_register),
{
    let mut rtc = raw;
    if !is_binary(status_b) {
        rtc.seconds = from_bcd(rtc.seconds);
        rtc.minutes = from_bcd(rtc.minutes);
        rtc.day = from_bcd(rtc.day);
        rtc.month = from_bcd(rtc.month);
    }
    rtc.hours = decode_hours(raw.hours, status_b);
    rtc.year = decode_year(raw.year, status_b, century_register);
    rtc
}

/// Whether status register A says that the chip is in the middle of an
/// update of its registers: its bit 7.
pub fn updating(status_a: u8) -> (busy: bool)
    ensures
        busy == has_bit(status_a, 7),
        busy == (status_a >= 128),
{
    assert((status_a & (1u8 << 7usize) != 0) == (status_a >= 128)) by (bit_vector);
    get_bit(status_a, 7)
}

/// Status register B with the bit cleared that keeps non-maskable
/// interrupts off.
pub fn enable_nmi(status_b: u8) -> (enabled: u8)
    ensures
        enabled == status_b % 128,
{
    assert(status_b & 0x7F == status_b % 128) by (bit_vector);
    status_b & 0x7F
}

/// Status register B with the bit set that keeps non-maskable interrupts
/// off.
pub fn disable_nmi(status_b: u8) -> (disabled: u8)
    ensures
        disabled == status_b % 128 + 128,
{
    assert(status_b | 0x80 == status_b % 128 + 128) by (bit_vector);
    status_b | 0x80
}

/// Status register B with the bit set that lets the clock raise its
/// periodic interrupt: bit 6.
pub fn enable_periodic_interrupt(status_b: u8) -> (enabled: u8)
    ensures
        enabled == status_b | 0x40,
        has_bit(enabled, 6),
        enabled % 64 == status_b % 64,
        enabled / 128 == status_b / 128,
{
    let enabled: u8 = status_b | 0x40;
    assert((status_b | 0x40) & (1u8 << 6usize) != 0) by (bit_vector);
    assert((status_b | 0x40) % 64 == status_b % 64) by (bit_vector);
    assert((status_b | 0x40) / 128 == status_b / 128) by (bit_vector);
    enabled
}

} // verus!
