//! The region scanner, and the step from physical addresses to virtual ones.
//!
//! The firmware hands over a memory map, a list of physical regions. The
//! frames that the kernel may use are those of the regions that are marked
//! usable and whose two bounds lie on page boundaries, in the order of the
//! map. [`usable_frames`] is that sequence; everything else in this module
//! is stated against it.

use vstd::prelude::*;
use crate::addr::{
    canonical_form, is_aligned, is_canonical, phys_addr_valid, virt_addr_representable,
    x86_virt_addr_add, Frame,
};

verus! {

/// What a region of the memory map holds.
#[derive(Clone, Copy, Debug, PartialEq, Eq, Structural)]
pub enum MemoryRegionKind {
    /// Free memory that the kernel may use.
    Usable,
    /// Memory in use by the bootloader's own mappings.
    Bootloader,
    /// A region that UEFI firmware reported with a type it has no name for.
    UnknownUefi(u32),
    /// A region that BIOS firmware reported with a type it has no name for.
    UnknownBios(u32),
}

/// One entry of the memory map: the physical addresses from `start` up to,
/// and without, `end`.
#[derive(Clone, Copy, Debug, PartialEq, Eq, Structural)]
pub struct MemoryRegion {
    pub start: u64,
    pub end: u64,
    pub kind: MemoryRegionKind,
}

impl MemoryRegion {
    /// A region supplies frames when it is usable and both of its bounds are
    /// page aligned. A usable region with an unaligned bound is left out whole.
    pub open spec fn supplies_frames(self) -> bool {
        &&& self.kind == MemoryRegionKind::Usable
        &&& is_aligned(self.start as int)
        &&& is_aligned(self.end as int)
    }

    /// How many frames the region supplies.
    pub open spec fn frame_count(self) -> nat {
        if self.supplies_frames() && self.start < self.end {
            ((self.end - self.start) / 4096) as nat
        } else {
            0
        }
    }

    /// The frames that the region supplies, by rising address.
    pub open spec fn frames(self) -> Seq<Frame> {
        Seq::new(self.frame_count(), |i: int| Frame { start: (self.start + 4096 * i) as u64 })
    }

    /// The region supplies no frame beyond the 52 bits of a physical address.
    pub open spec fn addressable(self) -> bool {
        self.frame_count() > 0 ==> self.end <= 0x10_0000_0000_0000
    }

    /// Whether the region supplies no frame beyond the 52 bits of a
    /// physical address.
    pub fn is_addressable(&self) -> (addressable: bool)
        ensures
            addressable == self.addressable(),
    {
        !(self.is_frame_supplier() && self.start < self.end) || self.end <= 0x10_0000_0000_0000
    }

    /// How many frames the region supplies.
    pub fn count_frames(&self) -> (count: u64)
        ensures
            count == self.frame_count(),
    {
        if self.is_frame_supplier() && self.start < self.end {
            (self.end - self.start) / 4096
        } else {
            0
        }
    }

    /// Whether the region supplies frames.
    pub fn is_frame_supplier(&self) -> (supplier: bool)
        ensures
            supplier == self.supplies_frames(),
    {
        self.kind == MemoryRegionKind::Usable && self.start % 4096 == 0 && self.end % 4096 == 0
    }
}

/// The usable frames of a memory map, region after region.
pub open spec fn usable_frames(regions: Seq<MemoryRegion>) -> Seq<Frame>
    decreases regions.len(),
{
    if regions.len() == 0 {
        Seq::empty()
    } else {
        usable_frames(regions.drop_last()) + regions.last().frames()
    }
}

/// A sequence of frames without its first `skip` entries; empty when it has
/// no more than `skip`.
pub open spec fn skip_frames(frames: Seq<Frame>, skip: int) -> Seq<Frame> {
    if 0 <= skip <= frames.len() {
        frames.subrange(skip, frames.len() as int)
    } else {
        Seq::empty()
    }
}

/// The scan of a memory map: its usable frames after the first `skip`.
pub open spec fn scan(regions: Seq<MemoryRegion>, skip: int) -> Seq<Frame> {
    skip_frames(usable_frames(regions), skip)
}

/// Every region of the map that supplies frames lies within the physical
/// address space.
pub open spec fn regions_addressable(regions: Seq<MemoryRegion>) -> bool {
    forall|i: int| 0 <= i < regions.len() ==> (#[trigger] regions[i]).addressable()
}

/// The usable frames of two maps laid end to end are those of the first
/// followed by those of the second.
pub proof fn lemma_usable_frames_concat(a: Seq<MemoryRegion>, b: Seq<MemoryRegion>)
    ensures
        usable_frames(a + b) == usable_frames(a) + usable_frames(b),
    decreases b.len(),
{
    if b.len() == 0 {
        assert(a + b =~= a);
        assert(usable_frames(a) + usable_frames(b) =~= usable_frames(a));
    } else {
        lemma_usable_frames_concat(a, b.drop_last());
        assert((a + b).drop_last() =~= a + b.drop_last());
        assert((a + b).last() == b.last());
        assert(usable_frames(a + b) =~= usable_frames(a) + usable_frames(b));
    }
}

/// The usable frames of the first `i + 1` regions are those of the first `i`
/// followed by the frames of region `i`.
pub proof fn lemma_usable_frames_step(regions: Seq<MemoryRegion>, i: int)
    requires
        0 <= i < regions.len(),
    ensures
        usable_frames(regions.subrange(0, i + 1)) == usable_frames(regions.subrange(0, i))
            + regions[i].frames(),
{
    let next = regions.subrange(0, i + 1);
    assert(next.drop_last() =~= regions.subrange(0, i));
    assert(next.last() == regions[i]);
}

/// The usable frames of a prefix of the map open the usable frames of the map.
pub proof fn lemma_usable_frames_prefix(regions: Seq<MemoryRegion>, i: int)
    requires
        0 <= i <= regions.len(),
    ensures
        usable_frames(regions.subrange(0, i)).len() <= usable_frames(regions).len(),
        forall|k: int|
            0 <= k < usable_frames(regions.subrange(0, i)).len() ==> usable_frames(
                regions.subrange(0, i),
            )[k] == #[trigger] usable_frames(regions)[k],
{
    let head = regions.subrange(0, i);
    let tail = regions.subrange(i, regions.len() as int);
    assert(head + tail =~= regions);
    lemma_usable_frames_concat(head, tail);
}

/// The index of the region that supplies the `k`-th usable frame of the map.
pub open spec fn region_of_frame(regions: Seq<MemoryRegion>, k: int) -> int
    decreases regions.len(),
{
    if regions.len() == 0 {
        0
    } else if k >= usable_frames(regions.drop_last()).len() {
        regions.len() - 1
    } else {
        region_of_frame(regions.drop_last(), k)
    }
}

/// The place of the `k`-th usable frame of the map among the frames of the
/// region that supplies it.
pub open spec fn offset_in_region(regions: Seq<MemoryRegion>, k: int) -> int {
    k - usable_frames(regions.subrange(0, region_of_frame(regions, k))).len()
}

/// Each usable frame of the map is a frame of one of its regions: the
/// `k`-th is frame `offset_in_region` of region `region_of_frame`.
pub proof fn lemma_frame_origin(regions: Seq<MemoryRegion>, k: int)
    requires
        0 <= k < usable_frames(regions).len(),
    ensures
        0 <= region_of_frame(regions, k) < regions.len(),
        0 <= offset_in_region(regions, k) < regions[region_of_frame(regions, k)].frame_count(),
        usable_frames(regions)[k] == regions[region_of_frame(regions, k)].frames()[offset_in_region(
            regions,
            k,
        )],
    decreases regions.len(),
{
    let head = regions.drop_last();
    let head_len = usable_frames(head).len();
    if k >= head_len {
        assert(regions.subrange(0, regions.len() - 1) =~= head);
    } else {
        lemma_frame_origin(head, k);
        let r = region_of_frame(head, k);
        assert(head.subrange(0, r) =~= regions.subrange(0, r));
        assert(head[r] == regions[r]);
    }
}

/// A later usable frame comes from the same region as an earlier one, or
/// from a later region.
pub proof fn lemma_frame_origin_monotonic(regions: Seq<MemoryRegion>, j: int, k: int)
    requires
        0 <= j < k < usable_frames(regions).len(),
    ensures
        region_of_frame(regions, j) <= region_of_frame(regions, k),
        region_of_frame(regions, j) == region_of_frame(regions, k) ==> offset_in_region(regions, j)
            < offset_in_region(regions, k),
{
    lemma_frame_origin(regions, j);
    lemma_frame_origin(regions, k);
    let rj = region_of_frame(regions, j);
    let rk = region_of_frame(regions, k);
    if rk < rj {
        let upto = regions.subrange(0, rj);
        lemma_usable_frames_prefix(upto, rk + 1);
        assert(upto.subrange(0, rk + 1) =~= regions.subrange(0, rk + 1));
        lemma_usable_frames_step(regions, rk);
        assert(false);
    }
}

/// No two regions of the map that supply frames share an address.
pub open spec fn regions_disjoint(regions: Seq<MemoryRegion>) -> bool {
    forall|a: int, b: int|
        0 <= a < b < regions.len() && (#[trigger] regions[a]).frame_count() > 0 && (
        #[trigger] regions[b]).frame_count() > 0 ==> regions[a].end <= regions[b].start
            || regions[b].end <= regions[a].start
}

/// The regions of the map that supply frames stand by rising address and
/// do not overlap.
pub open spec fn regions_ascending(regions: Seq<MemoryRegion>) -> bool {
    forall|a: int, b: int|
        0 <= a < b < regions.len() && (#[trigger] regions[a]).frame_count() > 0 && (
        #[trigger] regions[b]).frame_count() > 0 ==> regions[a].end <= regions[b].start
}

/// Every usable frame of a memory map starts on a page boundary, inside
/// the region that supplies it.
pub proof fn lemma_usable_frames_aligned(regions: Seq<MemoryRegion>, k: int)
    requires
        0 <= k < usable_frames(regions).len(),
    ensures
        is_aligned(usable_frames(regions)[k].start as int),
        regions[region_of_frame(regions, k)].supplies_frames(),
        regions[region_of_frame(regions, k)].start <= usable_frames(regions)[k].start,
        usable_frames(regions)[k].start + 4096 <= regions[region_of_frame(regions, k)].end,
        usable_frames(regions)[k].start == regions[region_of_frame(regions, k)].start + 4096
            * offset_in_region(regions, k),
{
    lemma_frame_origin(regions, k);
}

/// Where the regions that supply frames do not overlap, no frame occurs
/// twice among the usable frames of the map.
pub proof fn lemma_usable_frames_distinct(regions: Seq<MemoryRegion>, j: int, k: int)
    requires
        regions_disjoint(regions),
        0 <= j < usable_frames(regions).len(),
        0 <= k < usable_frames(regions).len(),
        j != k,
    ensures
        usable_frames(regions)[j] != usable_frames(regions)[k],
{
    lemma_frame_origin(regions, j);
    lemma_frame_origin(regions, k);
    if j < k {
        lemma_frame_origin_monotonic(regions, j, k);
    } else {
        lemma_frame_origin_monotonic(regions, k, j);
    }
    let rj = region_of_frame(regions, j);
    let rk = region_of_frame(regions, k);
    assert(regions[rj].frame_count() > 0 && regions[rk].frame_count() > 0);
}

/// Where the regions that supply frames stand by rising address, the
/// usable frames of the map rise strictly.
pub proof fn lemma_usable_frames_increasing(regions: Seq<MemoryRegion>, j: int, k: int)
    requires
        regions_ascending(regions),
        0 <= j < k < usable_frames(regions).len(),
    ensures
        usable_frames(regions)[j].start < usable_frames(regions)[k].start,
{
    lemma_frame_origin(regions, j);
    lemma_frame_origin(regions, k);
    lemma_frame_origin_monotonic(regions, j, k);
    let rj = region_of_frame(regions, j);
    let rk = region_of_frame(regions, k);
    assert(regions[rj].frame_count() > 0 && regions[rk].frame_count() > 0);
}

/// The frames that a scan yields are pairwise distinct and page aligned,
/// whatever it skips, where the regions that supply frames do not overlap.
pub proof fn lemma_scan_distinct_aligned(regions: Seq<MemoryRegion>, skip: int, j: int, k: int)
    requires
        regions_disjoint(regions),
        0 <= skip,
        0 <= j < scan(regions, skip).len(),
        0 <= k < scan(regions, skip).len(),
        j != k,
    ensures
        scan(regions, skip)[j] != scan(regions, skip)[k],
        is_aligned(scan(regions, skip)[j].start as int),
{
    lemma_usable_frames_distinct(regions, skip + j, skip + k);
    lemma_usable_frames_aligned(regions, skip + j);
}

/// A scan that skips `skip` frames yields none of the `skip` frames that
/// come before it, where the regions that supply frames do not overlap.
pub proof fn lemma_scan_disjoint_from_skipped(
    regions: Seq<MemoryRegion>,
    skip: int,
    earlier: int,
    later: int,
)
    requires
        regions_disjoint(regions),
        0 <= earlier < skip,
        0 <= later < scan(regions, skip).len(),
    ensures
        usable_frames(regions)[earlier] != scan(regions, skip)[later],
{
    lemma_usable_frames_distinct(regions, earlier, skip + later);
}

/// A region that is not usable, or that has a bound off a page boundary,
/// supplies no frame.
pub proof fn lemma_unfit_region_supplies_nothing(region: MemoryRegion)
    requires
        region.kind != MemoryRegionKind::Usable || !is_aligned(region.start as int) || !is_aligned(
            region.end as int,
        ),
    ensures
        region.frames() == Seq::<Frame>::empty(),
{
    assert(region.frames() =~= Seq::<Frame>::empty());
}

/// A region that is not usable, or that has a bound off a page boundary,
/// adds nothing to the usable frames of a map, wherever in the map it stands.
pub proof fn lemma_unfit_region_contributes_nothing(
    before: Seq<MemoryRegion>,
    region: MemoryRegion,
    after: Seq<MemoryRegion>,
)
    requires
        region.kind != MemoryRegionKind::Usable || !is_aligned(region.start as int) || !is_aligned(
            region.end as int,
        ),
    ensures
        usable_frames(before.push(region) + after) == usable_frames(before + after),
        forall|skip: int| scan(before.push(region) + after, skip) == scan(before + after, skip),
{
    lemma_unfit_region_supplies_nothing(region);
    lemma_usable_frames_concat(before.push(region), after);
    lemma_usable_frames_concat(before, after);
    assert(before.push(region).drop_last() =~= before);
    assert(usable_frames(before.push(region)) =~= usable_frames(before));
}

/// Whether every region of the map that supplies frames lies within the
/// physical address space.
pub fn all_addressable(regions: &[MemoryRegion]) -> (addressable: bool)
    ensures
        addressable == regions_addressable(regions@),
{
    let mut i: usize = 0;
    while i < regions.len()
        invariant
            i <= regions.len(),
            forall|k: int| 0 <= k < i ==> (#[trigger] regions@[k]).addressable(),
        decreases regions.len() - i,
    {
        if !regions[i].is_addressable() {
            return false;
        }
        i = i + 1;
    }
    true
}

/// How many usable frames the map has; `None` if they are more than a
/// `u64` can count.
pub fn count_usable_frames(regions: &[MemoryRegion]) -> (count: Option<u64>)
    ensures
        count.is_some() <==> usable_frames(regions@).len() <= u64::MAX,
        count.is_some() ==> count.unwrap() == usable_frames(regions@).len(),
{
    let mut total: u64 = 0;
    let mut i: usize = 0;
    while i < regions.len()
        invariant
            i <= regions.len(),
            total == usable_frames(regions@.subrange(0, i as int)).len(),
        decreases regions.len() - i,
    {
        proof {
            lemma_usable_frames_step(regions@, i as int);
            lemma_usable_frames_prefix(regions@, i as int + 1);
        }
        match total.checked_add(regions[i].count_frames()) {
            Some(sum) => {
                total = sum;
            },
            None => {
                return None;
            },
        }
        i = i + 1;
    }
    assert(regions@.subrange(0, i as int) =~= regions@);
    Some(total)
}

/// The usable frames of `regions` after the first `skip`, in the order of
/// the map.
pub fn get_usable_regions(regions: &[MemoryRegion], skip: usize) -> (frames: Vec<Frame>)
    requires
        regions_addressable(regions@),
    ensures
        frames@ == scan(regions@, skip as int),
{
    let mut frames: Vec<Frame> = Vec::new();
    let mut skipped: usize = 0;
    let mut i: usize = 0;
    while i < regions.len()
        invariant
            i <= regions.len(),
            regions_addressable(regions@),
            skipped <= skip,
            skipped <= usable_frames(regions@.subrange(0, i as int)).len(),
            skipped == skip || skipped == usable_frames(regions@.subrange(0, i as int)).len(),
            frames@ == skip_frames(usable_frames(regions@.subrange(0, i as int)), skip as int),
        decreases regions.len() - i,
    {
        let region = &regions[i];
        let ghost before = usable_frames(regions@.subrange(0, i as int));
        proof {
            lemma_usable_frames_step(regions@, i as int);
            assert(region.addressable());
        }
        if region.is_frame_supplier() {
            let mut addr: u64 = region.start;
            assert(before + region.frames().subrange(0, 0) =~= before);
            while addr < region.end
                invariant
                    region.supplies_frames(),
                    region.addressable(),
                    is_aligned(addr as int),
                    region.start <= addr,
                    addr <= region.end || region.frame_count() == 0,
                    (addr - region.start) / 4096 <= region.frame_count(),
                    skipped <= skip,
                    skipped <= (before + region.frames().subrange(
                        0,
                        (addr - region.start) / 4096,
                    )).len(),
                    skipped == skip || skipped == (before + region.frames().subrange(
                        0,
                        (addr - region.start) / 4096,
                    )).len(),
                    frames@ == skip_frames(
                        before + region.frames().subrange(0, (addr - region.start) / 4096),
                        skip as int,
                    ),
                decreases region.end - addr,
            {
                let ghost done = (addr - region.start) / 4096;
                let ghost so_far = before + region.frames().subrange(0, done);
                let frame = Frame::containing_address(addr);
                proof {
                    assert(region.frames()[done] == frame);
                    assert(before + region.frames().subrange(0, done + 1) =~= so_far.push(frame));
                    assert(skip_frames(so_far.push(frame), skip as int) =~= if skip <= so_far.len() {
                        skip_frames(so_far, skip as int).push(frame)
                    } else {
                        Seq::empty()
                    });
                }
                if skipped < skip {
                    skipped = skipped + 1;
                } else {
                    frames.push(frame);
                }
                addr = addr + 4096;
            }
            proof {
                let done = (addr - region.start) / 4096;
                assert(done == region.frame_count());
                assert(region.frames().subrange(0, done) =~= region.frames());
            }
        } else {
            assert(region.frames() =~= Seq::<Frame>::empty());
            assert(before + region.frames() =~= before);
        }
        i = i + 1;
    }
    assert(regions@.subrange(0, i as int) =~= regions@);
    frames
}

/// The first frame of the scan of `regions` that skips `skip` frames, found
/// without storing the scan. `None` when the map has no more than `skip`
/// usable frames.
pub fn first_usable_frame(regions: &[MemoryRegion], skip: usize) -> (frame: Option<Frame>)
    requires
        regions_addressable(regions@),
    ensures
        frame == if skip < usable_frames(regions@).len() {
            Some(usable_frames(regions@)[skip as int])
        } else {
            None
        },
        frame.is_some() ==> frame.unwrap().wf(),
{
    let mut remaining: u64 = skip as u64;
    let mut i: usize = 0;
    while i < regions.len()
        invariant
            i <= regions.len(),
            regions_addressable(regions@),
            usable_frames(regions@.subrange(0, i as int)).len() + remaining == skip,
        decreases regions.len() - i,
    {
        let region = &regions[i];
        proof {
            lemma_usable_frames_step(regions@, i as int);
            assert(region.addressable());
        }
        if region.is_frame_supplier() && region.start < region.end {
            let count: u64 = (region.end - region.start) / 4096;
            if remaining < count {
                let addr: u64 = region.start + remaining * 4096;
                proof {
                    lemma_usable_frames_prefix(regions@, i as int + 1);
                    let upto = usable_frames(regions@.subrange(0, i as int + 1));
                    assert(upto[skip as int] == region.frames()[remaining as int]);
                    assert(usable_frames(regions@)[skip as int] == upto[skip as int]);
                }
                return Some(Frame::containing_address(addr));
            }
            remaining = remaining - count;
        }
        i = i + 1;
    }
    assert(regions@.subrange(0, i as int) =~= regions@);
    None
}

/// The virtual address at which the physical address `physical_address` is
/// visible, given the virtual address `physical_memory_offset` at which
/// physical address zero is: their sum.
pub fn phys_to_virt(physical_memory_offset: u64, physical_address: u64) -> (virt: u64)
    requires
        is_canonical(physical_memory_offset as int),
        phys_addr_valid(physical_address as int),
        virt_addr_representable(physical_memory_offset + physical_address),
    ensures
        virt == canonical_form(physical_memory_offset + physical_address),
        is_canonical(physical_memory_offset + physical_address) ==> virt == physical_memory_offset
            + physical_address,
{
    x86_virt_addr_add(physical_memory_offset, physical_address)
}

} // verus!
