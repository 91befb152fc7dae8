//! The two chained interrupt controllers: which line each source of
//! interrupts is wired to, which lines are masked, and the divisor of the
//! interval timer.

use vstd::prelude::*;
use crate::bits::{set_bit, with_bit};

verus! {

/// The rate of the interval timer in ticks per second.
pub const TIMER_HZ: u64 = 1000;

/// What the timer's clock of 1193180 Hz is divided by to tick at
/// [`TIMER_HZ`].
pub const TIMER_DIVISOR: u64 = 1193180 / TIMER_HZ;

/// The first interrupt vector of the first controller.
pub const PIC1_OFFSET: u8 = 0x20;

/// The first interrupt vector of the second controller.
pub const PIC2_OFFSET: u8 = 0x28;

/// The sources of interrupts on the lines of the two controllers.
#[derive(Debug, Clone, Copy, PartialEq, Eq, Structural)]
pub enum PicInterrupts {
    Timer,
    Keyboard,
    PassThrough,
    RTC,
    ACPI,
    PCI1,
    PCI2,
    Mouse,
    FPU,
    PrimaryATA,
    SecondaryATA,
    COM2,
    COM1,
    LPT2,
    Floppy,
    LPT1,
}

impl PicInterrupts {
    /// The line of the source on its controller, from 0 to 7.
    pub open spec fn line(self) -> u8 {
        match self {
            PicInterrupts::Timer => 0,
            PicInterrupts::Keyboard => 1,
            PicInterrupts::PassThrough => 2,
            PicInterrupts::RTC => 0,
            PicInterrupts::ACPI => 1,
            PicInterrupts::PCI1 => 2,
            PicInterrupts::PCI2 => 3,
            PicInterrupts::Mouse => 4,
            PicInterrupts::FPU => 5,
            PicInterrupts::PrimaryATA => 6,
            PicInterrupts::SecondaryATA => 7,
            PicInterrupts::COM2 => 3,
            PicInterrupts::COM1 => 4,
            PicInterrupts::LPT2 => 5,
            PicInterrupts::Floppy => 6,
            PicInterrupts::LPT1 => 7,
        }
    }

    /// Whether the source is wired to the second controller.
    pub open spec fn on_second_controller(self) -> bool {
        match self {
            PicInterrupts::RTC | PicInterrupts::ACPI | PicInterrupts::PCI1 | PicInterrupts::PCI2
            | PicInterrupts::Mouse | PicInterrupts::FPU | PicInterrupts::PrimaryATA | PicInterrupts::SecondaryATA => true,
            _ => false,
        }
    }

    /// The interrupt vector of the source: the first vector of its
    /// controller plus its line.
    pub open spec fn vector(self) -> u8 {
        if self.on_second_controller() {
            (0x28 + self.line()) as u8
        } else {
            (0x20 + self.line()) as u8
        }
    }

    /// The line of the source on its controller, and its interrupt vector.
    pub fn into_values(self) -> (values: (u8, u8))
        ensures
            values.0 == self.line(),
            values.1 == self.vector(),
    {
        match self {
            PicInterrupts::Timer => (0, PIC1_OFFSET),
            PicInterrupts::Keyboard => (1, PIC1_OFFSET + 1),
            PicInterrupts::PassThrough => (2, PIC1_OFFSET + 2),
            PicInterrupts::RTC => (0, PIC2_OFFSET),
            PicInterrupts::ACPI => (1, PIC2_OFFSET + 1),
            PicInterrupts::PCI1 => (2, PIC2_OFFSET + 2),
            PicInterrupts::PCI2 => (3, PIC2_OFFSET + 3),
            PicInterrupts::Mouse => (4, PIC2_OFFSET + 4),
            PicInterrupts::FPU => (5, PIC2_OFFSET + 5),
            PicInterrupts::PrimaryATA => (6, PIC2_OFFSET + 6),
            PicInterrupts::SecondaryATA => (7, PIC2_OFFSET + 7),
            PicInterrupts::COM2 => (3, PIC1_OFFSET + 3),
            PicInterrupts::COM1 => (4, PIC1_OFFSET + 4),
            PicInterrupts::LPT2 => (5, PIC1_OFFSET + 5),
            PicInterrupts::Floppy => (6, PIC1_OFFSET + 6),
            PicInterrupts::LPT1 => (7, PIC1_OFFSET + 7),
        }
    }
}

/// The interrupt masks of the two controllers: a set bit keeps the line of
/// that number from raising interrupts.
#[derive(Debug, Clone, Copy, PartialEq, Eq, Structural)]
pub struct PicMask {
    pic1: u8,
    pic2: u8,
}

impl PicMask {
    /// The mask of the first controller.
    pub closed spec fn spec_pic1(&self) -> u8 {
        self.pic1
    }

    /// The mask of the second controller.
    pub closed spec fn spec_pic2(&self) -> u8 {
        self.pic2
    }

    /// The masks that keep every line from raising interrupts.
    pub fn new() -> (mask: Self)
        ensures
            mask.pic1() == 0xFF,
            mask.pic2() == 0xFF,
    {
        Self { pic1: 0xFF, pic2: 0xFF }
    }

    /// Lets the line of `interrupt` raise interrupts: clears its bit in the
    /// mask of its controller, and leaves every other bit.
    pub fn enable(&mut self, interrupt: PicInterrupts)
        ensures
            final(self).pic1() == if interrupt.on_second_controller() {
                old(self).pic1()
            } else {
                with_bit(old(self).pic1(), interrupt.line() as usize, false)
            },
            final(self).pic2() == if interrupt.on_second_controller() {
                with_bit(old(self).pic2(), interrupt.line() as usize, false)
            } else {
                old(self).pic2()
            },
    {
        let (mask, offset) = interrupt.into_values();
        if offset < PIC2_OFFSET {
            self.pic1 = set_bit(self.pic1, mask as usize, false);
        } else {
            self.pic2 = set_bit(self.pic2, mask as usize, false);
        }
    }

    /// The mask of the first controller.
    #[verifier::when_used_as_spec(spec_pic1)]
    pub fn pic1(&self) -> (mask: u8)
        ensures
            mask == self.pic1(),
    {
        self.pic1
    }

    /// The mask of the second controller.
    #[verifier::when_used_as_spec(spec_pic2)]
    pub fn pic2(&self) -> (mask: u8)
        ensures
            mask == self.pic2(),
    {
        self.pic2
    }
}

/// The divisor of the interval timer as the two bytes that are written to
/// the timer, the low byte first.
pub fn timer_divisor_bytes() -> (bytes: (u8, u8))
    ensures
        bytes.0 == TIMER_DIVISOR % 256,
        bytes.1 == (TIMER_DIVISOR / 256) % 256,
        bytes.0 + 256 * bytes.1 == TIMER_DIVISOR,
{
    let low_byte: u8 = (TIMER_DIVISOR % 256) as u8;
    let high_byte: u8 = ((TIMER_DIVISOR / 256) % 256) as u8;
    (low_byte, high_byte)
}

} // verus!
