//! The verified core of a small single-address-space x86_64 kernel.
//!
//! First of all the memory of the boot: the scan of the firmware's memory
//! map for usable frames ([`memory`]), the two suppliers of frames
//! ([`frame_alloc`]), the pairing of the pages of a window with frames
//! ([`mapper`]), and the dispatcher of the two heaps ([`heap`]). Beside it
//! the values that the rest of the kernel works with: dates and times
//! ([`time`], [`clock`], [`cmos`]), events ([`event`], [`kernel`]), the
//! interrupt controllers ([`pic`], [`madt`]), and the text screen
//! ([`text`], [`text_driver`], [`display`]).
//!
//! Nothing here touches the machine. What reads ports, writes page tables
//! or owns a global is left to the program around this library, which
//! hands over plain values and gets plain values back.

pub mod acpi;
pub mod addr;
pub mod bits;
pub mod clock;
pub mod cmos;
pub mod decimal;
pub mod display;
pub mod event;
pub mod frame_alloc;
pub mod heap;
pub mod kernel;
pub mod madt;
pub mod mapper;
pub mod memory;
pub mod pic;
pub mod serial;
pub mod text;
pub mod text_driver;
pub mod time;
