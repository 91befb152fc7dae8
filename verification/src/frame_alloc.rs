//! The two suppliers of physical frames.
//!
//! [`SimpleHeapFrameAllocator`] serves the time before any heap exists: it
//! stores nothing but the memory map and a cursor, and finds each frame by
//! scanning the map again. [`HeapFrameAllocator`] scans the map once, keeps
//! what is left of it in a queue, and hands out the front of the queue.
//! Both are a [`FrameSource`], and a queue that starts at the cursor where
//! a scanning allocator stopped continues its sequence of frames.

use std::collections::VecDeque;
use vstd::prelude::*;
use crate::addr::Frame;
use crate::memory::{
    first_usable_frame, get_usable_regions, regions_addressable, scan, skip_frames,
    usable_frames, MemoryRegion,
};

verus! {

/// A supplier of physical frames. A frame that was handed out is never
/// handed out again by the same source.
pub trait FrameSource {
    /// The frames that the source has yet to hand out, next one first.
    spec fn pending(&self) -> Seq<Frame>;

    /// How many requests the source has seen, counting those made of the
    /// sources that it continues.
    spec fn cursor(&self) -> int;

    /// What the source needs to hold in order to serve a request.
    spec fn wf(&self) -> bool;

    /// Hands out the next frame, or `None` when none is left. The request
    /// is counted either way.
    fn allocate_frame(&mut self) -> (frame: Option<Frame>)
        requires
            old(self).wf(),
            old(self).cursor() < usize::MAX,
        ensures
            final(self).wf(),
            final(self).cursor() == old(self).cursor() + 1,
            frame == if old(self).pending().len() > 0 {
                Some(old(self).pending()[0])
            } else {
                None
            },
            final(self).pending() == skip_frames(old(self).pending(), 1),
    ;
}

/// The frame source of the time before the heap: the memory map and the
/// number of frames handed out so far.
pub struct SimpleHeapFrameAllocator<'a> {
    memory_regions: &'a [MemoryRegion],
    next: usize,
}

impl<'a> SimpleHeapFrameAllocator<'a> {
    /// The memory map that the allocator scans.
    pub closed spec fn regions(&self) -> Seq<MemoryRegion> {
        self.memory_regions@
    }

    /// An allocator over `memory_regions` that leaves out the first `next`
    /// usable frames of the map.
    pub fn new(memory_regions: &'a [MemoryRegion], next: usize) -> (allocator: Self)
        ensures
            allocator.regions() == memory_regions@,
            allocator.cursor() == next,
            allocator.pending() == scan(memory_regions@, next as int),
            allocator.wf() == regions_addressable(memory_regions@),
    {
        Self { memory_regions, next }
    }

    /// The frames that the allocator has yet to hand out, next one first.
    pub fn usable_regions(&self) -> (frames: Vec<Frame>)
        requires
            self.wf(),
        ensures
            frames@ == self.pending(),
    {
        get_usable_regions(self.memory_regions, self.next)
    }

    /// The number of requests served or refused so far, which is the number
    /// of usable frames of the map that are spoken for.
    pub fn next(&self) -> (next: usize)
        ensures
            next == self.cursor(),
    {
        self.next
    }
}

impl<'a> FrameSource for SimpleHeapFrameAllocator<'a> {
    closed spec fn pending(&self) -> Seq<Frame> {
        scan(self.memory_regions@, self.next as int)
    }

    closed spec fn cursor(&self) -> int {
        self.next as int
    }

    closed spec fn wf(&self) -> bool {
        regions_addressable(self.memory_regions@)
    }

    fn allocate_frame(&mut self) -> (frame: Option<Frame>)
        ensures
            final(self).regions() == old(self).regions(),
            frame.is_some() ==> frame.unwrap().wf(),
    {
        let frame = first_usable_frame(self.memory_regions, self.next);
        proof {
            let all = usable_frames(self.memory_regions@);
            assert(skip_frames(skip_frames(all, self.next as int), 1) =~= skip_frames(
                all,
                self.next as int + 1,
            ));
        }
        self.next = self.next + 1;
        frame
    }
}

/// What a scanning allocator has yet to hand out is the scan of its map
/// from its cursor on.
pub proof fn lemma_simple_allocator_pending(allocator: SimpleHeapFrameAllocator<'_>)
    ensures
        allocator.pending() == scan(allocator.regions(), allocator.cursor()),
{
}

/// The frame source of the time after the first heap: the usable frames
/// that are left, in a queue, and the number of requests seen.
pub struct HeapFrameAllocator {
    usable_frames: VecDeque<Frame>,
    next: usize,
}

impl HeapFrameAllocator {
    /// An allocator that holds the usable frames of `memory_regions` but
    /// for the first `next`, which an earlier source has handed out.
    pub fn new(memory_regions: &[MemoryRegion], next: usize) -> (allocator: Self)
        requires
            regions_addressable(memory_regions@),
        ensures
            allocator.wf(),
            allocator.cursor() == next,
            allocator.pending() == scan(memory_regions@, next as int),
    {
        let frames = get_usable_regions(memory_regions, next);
        let mut usable_frames: VecDeque<Frame> = VecDeque::new();
        let mut i: usize = 0;
        while i < frames.len()
            invariant
                i <= frames.len(),
                usable_frames@ == frames@.subrange(0, i as int),
            decreases frames.len() - i,
        {
            usable_frames.push_back(frames[i]);
            assert(frames@.subrange(0, i as int).push(frames@[i as int]) =~= frames@.subrange(
                0,
                i as int + 1,
            ));
            i = i + 1;
        }
        assert(frames@.subrange(0, i as int) =~= frames@);
        Self { usable_frames, next }
    }

    /// The number of requests seen so far, counting those of the source
    /// that this one continues.
    pub fn next(&self) -> (next: usize)
        ensures
            next == self.cursor(),
    {
        self.next
    }

    /// How many frames the allocator has yet to hand out.
    pub fn remaining(&self) -> (count: usize)
        ensures
            count == self.pending().len(),
    {
        self.usable_frames.len()
    }
}

impl FrameSource for HeapFrameAllocator {
    closed spec fn pending(&self) -> Seq<Frame> {
        self.usable_frames@
    }

    closed spec fn cursor(&self) -> int {
        self.next as int
    }

    closed spec fn wf(&self) -> bool {
        true
    }

    fn allocate_frame(&mut self) -> (frame: Option<Frame>) {
        self.next = self.next + 1;
        let frame = self.usable_frames.pop_front();
        assert(self.usable_frames@ =~= skip_frames(old(self).usable_frames@, 1));
        frame
    }
}

/// A queue that is built at the cursor where a scanning allocator stands
/// holds what that allocator has yet to hand out: the one continues the
/// other, and no frame is handed out by both where the regions that
/// supply frames do not overlap.
pub proof fn lemma_queue_continues_scan(
    regions: Seq<MemoryRegion>,
    issued: int,
    earlier: int,
    later: int,
)
    requires
        crate::memory::regions_disjoint(regions),
        0 <= earlier < issued,
        0 <= later < scan(regions, issued).len(),
    ensures
        scan(regions, 0)[earlier] != scan(regions, issued)[later],
        scan(regions, issued)[later] == scan(regions, 0)[issued + later],
{
    crate::memory::lemma_scan_disjoint_from_skipped(regions, issued, earlier, later);
    assert(scan(regions, 0) =~= usable_frames(regions));
}

} // verus!
