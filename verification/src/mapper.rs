//! The address mapper: which page of a window of virtual addresses is to
//! be backed by which frame.
//!
//! Installing a mapping is the work of the page-table hardware and is not
//! done here. This module decides the mappings: it walks the pages that
//! cover a window, asks a frame source for one frame per page, and hands
//! each pairing to the caller, who installs it. [`HeapRangeMapper`] does so
//! one page at a time and needs no heap; [`init_heap_range`] runs it over a
//! whole window and returns the list.

use vstd::prelude::*;
use crate::addr::{
    align_down, is_aligned, is_canonical, x86_page_containing, x86_page_successor,
    x86_virt_addr_add, x86_virt_addr_new, x86_virt_addr_sub, Frame,
};
use crate::frame_alloc::FrameSource;
use crate::memory::skip_frames;

verus! {

/// The protection of a mapping.
#[derive(Clone, Copy, Debug, PartialEq, Eq, Structural)]
pub struct PageFlags {
    pub present: bool,
    pub writable: bool,
    pub user_accessible: bool,
}

/// One mapping to install: the page at virtual address `page` is backed by
/// `frame` and protected by `flags`.
#[derive(Clone, Copy, Debug, PartialEq, Eq, Structural)]
pub struct PageMapping {
    pub page: u64,
    pub frame: Frame,
    pub flags: PageFlags,
}

/// Why a window could not be mapped.
#[derive(Clone, Copy, Debug, PartialEq, Eq, Structural)]
pub enum MapToError {
    /// The frame source had no frame left for a page of the window.
    FrameAllocationFailed,
}

/// A window of `size` bytes at `start` that can be mapped: it holds
/// canonical addresses only, all in one half of the address space, and
/// the address just before its end exists.
pub open spec fn window_valid(start: int, size: int) -> bool {
    &&& 0 <= start
    &&& 0 <= size
    &&& 1 <= start + size
    &&& {
        ||| start + size < 0x8000_0000_0000
        ||| (0xffff_8000_0000_0000 <= start && 0xffff_8000_0000_0000 <= start + size - 1 && start
            + size <= 0xffff_ffff_ffff_ffff)
    }
}

/// Whether the window of `size` bytes at `start` can be mapped.
pub fn is_window_valid(start: u64, size: u64) -> (valid: bool)
    ensures
        valid == window_valid(start as int, size as int),
{
    if start == 0 && size == 0 {
        return false;
    }
    match start.checked_add(size) {
        None => false,
        Some(end) => end < 0x8000_0000_0000 || (0xffff_8000_0000_0000 <= start && 0xffff_8000_0000_0000
            <= end - 1),
    }
}

/// The first page that a window touches.
pub open spec fn first_page(start: int) -> int {
    align_down(start)
}

/// The page that holds the last byte of a window. For an empty window it is
/// the page of the byte before `start`.
pub open spec fn last_page(start: int, size: int) -> int {
    align_down(start + size - 1)
}

/// How many pages cover a window.
pub open spec fn page_count(start: int, size: int) -> int {
    if first_page(start) <= last_page(start, size) {
        (last_page(start, size) - first_page(start)) / 4096 + 1
    } else {
        0
    }
}

/// The pages that cover a window, by rising address.
pub open spec fn window_pages(start: int, size: int) -> Seq<u64> {
    Seq::new(page_count(start, size) as nat, |i: int| (first_page(start) + 4096 * i) as u64)
}

/// The number of pages that `size` bytes fill, the last one perhaps in part.
pub open spec fn pages_for_bytes(size: int) -> int {
    (size + 4095) / 4096
}

/// A window is covered by as many pages as its size fills exactly when its
/// bytes do not spill over one page boundary more than its size alone
/// would: an empty window has to start on a page boundary, and any other
/// must not start so far into a page that its last byte is pushed into a
/// further page. A window that starts on a page boundary always qualifies.
pub proof fn lemma_page_count_is_size_in_pages(start: int, size: int)
    requires
        window_valid(start, size),
    ensures
        page_count(start, size) == pages_for_bytes(size) <==> if size == 0 {
            is_aligned(start)
        } else {
            start % 4096 + (size - 1) % 4096 < 4096
        },
        is_aligned(start) ==> page_count(start, size) == pages_for_bytes(size),
{
}

/// The walk over the pages of a window, one mapping at a time.
pub struct HeapRangeMapper {
    next_page: u64,
    pages_left: u64,
    flags: PageFlags,
}

impl HeapRangeMapper {
    /// The pages that are yet to be mapped, next one first.
    pub closed spec fn pages(&self) -> Seq<u64> {
        Seq::new(self.pages_left as nat, |i: int| (self.next_page + 4096 * i) as u64)
    }

    /// The protection that every mapping of the walk gets.
    pub closed spec fn protection(&self) -> PageFlags {
        self.flags
    }

    /// The pages that are left are page aligned and canonical, and lie in
    /// one half of the address space.
    pub closed spec fn wf(&self) -> bool {
        self.pages_left > 0 ==> {
            &&& is_aligned(self.next_page as int)
            &&& {
                ||| self.next_page + 4096 * (self.pages_left - 1) < 0x8000_0000_0000
                ||| (0xffff_8000_0000_0000 <= self.next_page && self.next_page + 4096 * (
                self.pages_left - 1) <= 0xffff_ffff_ffff_f000)
            }
        }
    }

    /// The walk over the pages that cover the `size` bytes at `start`.
    pub fn new(start: u64, size: u64, flags: PageFlags) -> (mapper: Self)
        requires
            window_valid(start as int, size as int),
        ensures
            mapper.wf(),
            mapper.pages() == window_pages(start as int, size as int),
            mapper.protection() == flags,
    {
        let first = x86_virt_addr_new(start);
        let past = x86_virt_addr_add(first, size);
        let last = x86_virt_addr_sub(past, 1);
        let first_page = x86_page_containing(first);
        let last_page = x86_page_containing(last);
        let pages_left: u64 = if first_page <= last_page {
            (last_page - first_page) / 4096 + 1
        } else {
            0
        };
        let mapper = Self { next_page: first_page, pages_left, flags };
        assert(mapper.pages() =~= window_pages(start as int, size as int));
        mapper
    }

    /// How many pages are yet to be mapped.
    pub fn remaining(&self) -> (count: u64)
        ensures
            count == self.pages().len(),
    {
        self.pages_left
    }

    /// The next mapping to install. `None` when every page of the window
    /// has had its mapping; an error when a page is left and the frame
    /// source has no frame for it, in which case the walk stays where it is.
    /// The frame source is asked once unless the walk is over.
    pub fn next_mapping<A: FrameSource>(&mut self, frame_allocator: &mut A) -> (step: Option<
        Result<PageMapping, MapToError>,
    >)
        requires
            old(self).wf(),
            old(frame_allocator).wf(),
            old(frame_allocator).cursor() < usize::MAX,
        ensures
            final(self).wf(),
            final(frame_allocator).wf(),
            final(self).protection() == old(self).protection(),
            match step {
                None => {
                    &&& old(self).pages().len() == 0
                    &&& final(self).pages() == old(self).pages()
                    &&& final(frame_allocator).cursor() == old(frame_allocator).cursor()
                    &&& final(frame_allocator).pending() == old(frame_allocator).pending()
                },
                Some(Err(error)) => {
                    &&& error == MapToError::FrameAllocationFailed
                    &&& old(self).pages().len() > 0
                    &&& old(frame_allocator).pending().len() == 0
                    &&& final(self).pages() == old(self).pages()
                    &&& final(frame_allocator).cursor() == old(frame_allocator).cursor() + 1
                    &&& final(frame_allocator).pending() == old(frame_allocator).pending()
                },
                Some(Ok(mapping)) => {
                    &&& old(self).pages().len() > 0
                    &&& old(frame_allocator).pending().len() > 0
                    &&& mapping.page == old(self).pages()[0]
                    &&& mapping.frame == old(frame_allocator).pending()[0]
                    &&& mapping.flags == old(self).protection()
                    &&& final(self).pages() == old(self).pages().subrange(
                        1,
                        old(self).pages().len() as int,
                    )
                    &&& final(frame_allocator).cursor() == old(frame_allocator).cursor() + 1
                    &&& final(frame_allocator).pending() == skip_frames(
                        old(frame_allocator).pending(),
                        1,
                    )
                },
            },
    {
        if self.pages_left == 0 {
            return None;
        }
        match frame_allocator.allocate_frame() {
            None => {
                assert(skip_frames(old(frame_allocator).pending(), 1) =~= old(
                    frame_allocator,
                ).pending());
                Some(Err(MapToError::FrameAllocationFailed))
            },
            Some(frame) => {
                let page = self.next_page;
                if self.pages_left > 1 {
                    self.next_page = x86_page_successor(page);
                }
                self.pages_left = self.pages_left - 1;
                assert(self.pages() =~= old(self).pages().subrange(
                    1,
                    old(self).pages().len() as int,
                ));
                Some(Ok(PageMapping { page, frame, flags: self.flags }))
            },
        }
    }
}

/// The mappings that back the `size` bytes at `start`: one per page that
/// covers the window, by rising address, each with the next frame of
/// `frame_allocator` and with `flags`.
///
/// Fails with `FrameAllocationFailed` exactly when the source has fewer
/// frames than the window has pages. The source is then empty, and has
/// been asked once more than it had frames; no mapping is returned, though
/// the frames are spent. On success the source has been asked exactly once
/// per page.
pub fn init_heap_range<A: FrameSource>(
    frame_allocator: &mut A,
    start: u64,
    size: u64,
    flags: PageFlags,
) -> (result: Result<Vec<PageMapping>, MapToError>)
    requires
        old(frame_allocator).wf(),
        window_valid(start as int, size as int),
        old(frame_allocator).cursor() + page_count(start as int, size as int) <= usize::MAX,
    ensures
        final(frame_allocator).wf(),
        result.is_ok() <==> page_count(start as int, size as int) <= old(
            frame_allocator,
        ).pending().len(),
        match result {
            Ok(mappings) => {
                &&& mappings@.len() == page_count(start as int, size as int)
                &&& forall|i: int|
                    0 <= i < mappings@.len() ==> #[trigger] mappings@[i] == (PageMapping {
                        page: window_pages(start as int, size as int)[i],
                        frame: old(frame_allocator).pending()[i],
                        flags,
                    })
                &&& final(frame_allocator).cursor() == old(frame_allocator).cursor() + page_count(
                    start as int,
                    size as int,
                )
                &&& final(frame_allocator).pending() == skip_frames(
                    old(frame_allocator).pending(),
                    page_count(start as int, size as int),
                )
            },
            Err(error) => {
                &&& error == MapToError::FrameAllocationFailed
                &&& final(frame_allocator).cursor() == old(frame_allocator).cursor() + old(
                    frame_allocator,
                ).pending().len() + 1
                &&& final(frame_allocator).pending().len() == 0
            },
        },
{
    let ghost pages = window_pages(start as int, size as int);
    let ghost supply = frame_allocator.pending();
    let ghost asked = frame_allocator.cursor();
    let mut mapper = HeapRangeMapper::new(start, size, flags);
    let mut mappings: Vec<PageMapping> = Vec::new();
    assert(pages.subrange(0, pages.len() as int) =~= pages);
    assert(skip_frames(supply, 0) =~= supply);
    while mapper.remaining() > 0
        invariant
            mapper.wf(),
            frame_allocator.wf(),
            mapper.protection() == flags,
            supply == old(frame_allocator).pending(),
            asked == old(frame_allocator).cursor(),
            pages == window_pages(start as int, size as int),
            pages.len() == page_count(start as int, size as int),
            asked + pages.len() <= usize::MAX,
            mappings@.len() <= pages.len(),
            mappings@.len() <= supply.len(),
            mapper.pages() == pages.subrange(mappings@.len() as int, pages.len() as int),
            frame_allocator.cursor() == asked + mappings@.len(),
            frame_allocator.pending() == skip_frames(supply, mappings@.len() as int),
            forall|i: int|
                0 <= i < mappings@.len() ==> #[trigger] mappings@[i] == (PageMapping {
                    page: pages[i],
                    frame: supply[i],
                    flags,
                }),
        decreases mapper.pages().len(),
    {
        let ghost done = mappings@.len() as int;
        match mapper.next_mapping(frame_allocator) {
            Some(Ok(mapping)) => {
                mappings.push(mapping);
                proof {
                    assert(pages.subrange(done, pages.len() as int).subrange(
                        1,
                        pages.len() - done,
                    ) =~= pages.subrange(done + 1, pages.len() as int));
                    assert(skip_frames(skip_frames(supply, done), 1) =~= skip_frames(
                        supply,
                        done + 1,
                    ));
                }
            },
            Some(Err(error)) => {
                return Err(error);
            },
            None => {
                return Ok(mappings);
            },
        }
    }
    Ok(mappings)
}

} // verus!
