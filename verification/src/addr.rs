//! Physical and virtual addresses, frames and pages.
//!
//! Addresses are held as plain `u64` values. The arithmetic on them that
//! the `x86_64` crate defines (validation, sign extension, alignment) is
//! done by that crate; the functions that call it are the trusted base of
//! this module and are marked as such.

use vstd::prelude::*;

verus! {

/// Size in bytes of a frame of physical memory and of a page of virtual memory.
pub const PAGE_SIZE: u64 = 4096;

/// A physical address uses the low 52 bits only.
pub open spec fn phys_addr_valid(addr: int) -> bool {
    0 <= addr < 0x10_0000_0000_0000
}

/// A canonical virtual address: bits 47 to 63 are all equal.
pub open spec fn is_canonical(addr: int) -> bool {
    0 <= addr < 0x8000_0000_0000 || 0xffff_8000_0000_0000 <= addr <= 0xffff_ffff_ffff_ffff
}

/// The values that can be turned into a canonical address: canonical ones,
/// and those with bit 47 set and bits 48 to 63 clear, which are sign extended.
pub open spec fn virt_addr_representable(addr: int) -> bool {
    0 <= addr < 0x1_0000_0000_0000 || 0xffff_8000_0000_0000 <= addr <= 0xffff_ffff_ffff_ffff
}

/// The canonical address that a representable value stands for.
pub open spec fn canonical_form(addr: int) -> int {
    if 0x8000_0000_0000 <= addr < 0x1_0000_0000_0000 {
        addr + 0xffff_0000_0000_0000
    } else {
        addr
    }
}

/// The greatest multiple of the page size that is not above `addr`.
pub open spec fn align_down(addr: int) -> int {
    addr - addr % 4096
}

/// Whether `addr` is a multiple of the page size.
pub open spec fn is_aligned(addr: int) -> bool {
    addr % 4096 == 0
}

/// Trusted: `x86_64::PhysFrame::containing_address` on `x86_64::PhysAddr::new(addr)`.
/// `PhysAddr::new` panics when a bit from 52 up is set; the frame's start is
/// the address with its low twelve bits cleared.
#[verifier::external_body]
pub(crate) fn x86_frame_containing(addr: u64) -> (start: u64)
    requires
        phys_addr_valid(addr as int),
    ensures
        start == align_down(addr as int),
{
    let frame = x86_64::structures::paging::PhysFrame::<
        x86_64::structures::paging::Size4KiB,
    >::containing_address(x86_64::PhysAddr::new(addr));
    frame.start_address().as_u64()
}

/// Trusted: `x86_64::VirtAddr::new`. It panics unless bits 47 to 63 are all
/// equal or only bit 47 of them is set; in the latter case it sign extends.
#[verifier::external_body]
pub(crate) fn x86_virt_addr_new(addr: u64) -> (canonical: u64)
    requires
        virt_addr_representable(addr as int),
    ensures
        canonical == canonical_form(addr as int),
{
    x86_64::VirtAddr::new(addr).as_u64()
}

/// Trusted: `VirtAddr + u64` of the `x86_64` crate, which adds the raw
/// values and passes the sum to `VirtAddr::new`.
#[verifier::external_body]
pub(crate) fn x86_virt_addr_add(base: u64, rhs: u64) -> (sum: u64)
    requires
        is_canonical(base as int),
        virt_addr_representable(base + rhs),
    ensures
        sum == canonical_form(base + rhs),
{
    (x86_64::VirtAddr::new(base) + rhs).as_u64()
}

/// Trusted: `VirtAddr - u64` of the `x86_64` crate, which subtracts the raw
/// values, panicking below zero, and passes the difference to `VirtAddr::new`.
#[verifier::external_body]
pub(crate) fn x86_virt_addr_sub(base: u64, rhs: u64) -> (difference: u64)
    requires
        is_canonical(base as int),
        virt_addr_representable(base - rhs),
    ensures
        difference == canonical_form(base - rhs),
{
    (x86_64::VirtAddr::new(base) - rhs).as_u64()
}

/// Trusted: `x86_64::Page::containing_address`, which clears the low twelve
/// bits of a canonical address.
#[verifier::external_body]
pub(crate) fn x86_page_containing(addr: u64) -> (start: u64)
    requires
        is_canonical(addr as int),
    ensures
        start == align_down(addr as int),
{
    let page = x86_64::structures::paging::Page::<
        x86_64::structures::paging::Size4KiB,
    >::containing_address(x86_64::VirtAddr::new(addr));
    page.start_address().as_u64()
}

/// Trusted: `Page + 1` of the `x86_64` crate, the step that its inclusive
/// page range takes: the page containing the start address plus 4096.
#[verifier::external_body]
pub(crate) fn x86_page_successor(page: u64) -> (next: u64)
    requires
        is_canonical(page as int),
        is_aligned(page as int),
        is_canonical(page + 4096),
    ensures
        next == page + 4096,
{
    let page = x86_64::structures::paging::Page::<
        x86_64::structures::paging::Size4KiB,
    >::containing_address(x86_64::VirtAddr::new(page));
    (page + 1).start_address().as_u64()
}

/// A frame of physical memory, one page wide, named by its base address.
#[derive(Clone, Copy, Debug, PartialEq, Eq, Structural)]
pub struct Frame {
    pub start: u64,
}

impl Frame {
    /// A frame starts on a page boundary, at a valid physical address.
    pub open spec fn wf(self) -> bool {
        is_aligned(self.start as int) && phys_addr_valid(self.start as int)
    }

    /// The frame that holds the physical address `addr`.
    pub fn containing_address(addr: u64) -> (frame: Frame)
        requires
            phys_addr_valid(addr as int),
        ensures
            frame.start == align_down(addr as int),
            frame.wf(),
    {
        Frame { start: x86_frame_containing(addr) }
    }

    /// The base address of the frame.
    pub fn start_address(&self) -> (start: u64)
        ensures
            start == self.start,
    {
        self.start
    }
}

} // verus!
