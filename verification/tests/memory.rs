use akjo_os::addr::Frame;
use akjo_os::frame_alloc::{FrameSource, HeapFrameAllocator, SimpleHeapFrameAllocator};
use akjo_os::memory::{
    all_addressable, count_usable_frames, first_usable_frame, get_usable_regions, phys_to_virt,
    MemoryRegion, MemoryRegionKind,
};

fn usable(start: u64, end: u64) -> MemoryRegion {
    MemoryRegion { start, end, kind: MemoryRegionKind::Usable }
}

fn sample_map() -> Vec<MemoryRegion> {
    vec![
        MemoryRegion { start: 0, end: 0x1000, kind: MemoryRegionKind::Bootloader },
        usable(0x1000, 0x4000),
        usable(0x4800, 0x8000),
        MemoryRegion { start: 0x8000, end: 0xa000, kind: MemoryRegionKind::UnknownBios(2) },
        usable(0xa000, 0xa000),
        usable(0x10000, 0x12000),
        MemoryRegion { start: 0x20000, end: 0x30000, kind: MemoryRegionKind::UnknownUefi(7) },
        usable(0x30000, 0x30fff),
    ]
}

#[test]
fn frame_containing_address_rounds_down() {
    assert_eq!(Frame::containing_address(0x1234), Frame { start: 0x1000 });
    assert_eq!(Frame::containing_address(0x1fff).start_address(), 0x1000);
    assert_eq!(Frame::containing_address(0x2000), Frame { start: 0x2000 });
    assert_eq!(Frame::containing_address(0), Frame { start: 0 });
    assert_eq!(
        Frame::containing_address(0xf_ffff_ffff_ffff),
        Frame { start: 0xf_ffff_ffff_f000 }
    );
}

#[test]
fn scan_yields_frames_of_usable_aligned_regions_in_order() {
    let frames = get_usable_regions(&sample_map(), 0);
    let starts: Vec<u64> = frames.iter().map(|f| f.start).collect();
    assert_eq!(starts, vec![0x1000, 0x2000, 0x3000, 0x10000, 0x11000]);
}

#[test]
fn scan_skips_a_prefix() {
    let map = sample_map();
    let all = get_usable_regions(&map, 0);
    for skip in 0..8 {
        let rest = get_usable_regions(&map, skip);
        let expected: Vec<Frame> = all.iter().skip(skip).cloned().collect();
        assert_eq!(rest, expected);
    }
    assert!(get_usable_regions(&map, 5).is_empty());
    assert!(get_usable_regions(&map, usize::MAX).is_empty());
}

#[test]
fn scan_of_empty_map_is_empty() {
    assert!(get_usable_regions(&[], 0).is_empty());
    assert_eq!(first_usable_frame(&[], 0), None);
}

#[test]
fn first_usable_frame_agrees_with_scan() {
    let map = sample_map();
    let all = get_usable_regions(&map, 0);
    for skip in 0..7 {
        assert_eq!(first_usable_frame(&map, skip), all.get(skip).cloned());
    }
    assert_eq!(first_usable_frame(&map, 3), Some(Frame { start: 0x10000 }));
}

#[test]
fn unusable_and_unaligned_regions_supply_no_frame() {
    let unfit = [
        MemoryRegion { start: 0x1000, end: 0x9000, kind: MemoryRegionKind::Bootloader },
        MemoryRegion { start: 0x1000, end: 0x9000, kind: MemoryRegionKind::UnknownUefi(1) },
        MemoryRegion { start: 0x1000, end: 0x9000, kind: MemoryRegionKind::UnknownBios(1) },
        usable(0x1001, 0x9000),
        usable(0x1000, 0x8fff),
        usable(0x1800, 0x8800),
    ];
    for region in unfit.iter() {
        assert!(get_usable_regions(&[*region], 0).is_empty());
        assert!(!region.is_frame_supplier() || region.kind == MemoryRegionKind::Usable);
        let with = [usable(0x10000, 0x12000), *region, usable(0x20000, 0x21000)];
        let without = [usable(0x10000, 0x12000), usable(0x20000, 0x21000)];
        assert_eq!(get_usable_regions(&with, 0), get_usable_regions(&without, 0));
        assert_eq!(get_usable_regions(&with, 2), get_usable_regions(&without, 2));
    }
}

#[test]
fn region_with_end_before_start_supplies_no_frame() {
    assert!(get_usable_regions(&[usable(0x5000, 0x2000)], 0).is_empty());
    assert_eq!(first_usable_frame(&[usable(0x5000, 0x2000)], 0), None);
}

#[test]
fn bootstrap_source_frames_are_distinct_and_aligned() {
    let map = sample_map();
    let mut source = SimpleHeapFrameAllocator::new(&map, 0);
    let mut seen: Vec<Frame> = Vec::new();
    while let Some(frame) = source.allocate_frame() {
        assert_eq!(frame.start % 4096, 0);
        assert!(!seen.contains(&frame));
        if let Some(last) = seen.last() {
            assert!(last.start < frame.start);
        }
        seen.push(frame);
    }
    assert_eq!(seen.len(), 5);
    assert_eq!(source.next(), 6);
}

#[test]
fn bootstrap_source_counts_refused_requests() {
    let map = [usable(0x1000, 0x2000)];
    let mut source = SimpleHeapFrameAllocator::new(&map, 0);
    assert_eq!(source.allocate_frame(), Some(Frame { start: 0x1000 }));
    assert_eq!(source.allocate_frame(), None);
    assert_eq!(source.allocate_frame(), None);
    assert_eq!(source.next(), 3);
}

#[test]
fn bootstrap_source_lists_what_is_left() {
    let map = sample_map();
    let mut source = SimpleHeapFrameAllocator::new(&map, 1);
    assert_eq!(source.usable_regions().len(), 4);
    assert_eq!(source.allocate_frame(), Some(Frame { start: 0x2000 }));
    let left: Vec<u64> = source.usable_regions().iter().map(|f| f.start).collect();
    assert_eq!(left, vec![0x3000, 0x10000, 0x11000]);
}

#[test]
fn one_mebibyte_region_yields_256_frames_then_exhaustion() {
    let map = [usable(0x100000, 0x200000)];
    let mut source = SimpleHeapFrameAllocator::new(&map, 0);
    for i in 0..256u64 {
        assert_eq!(source.allocate_frame(), Some(Frame { start: 0x100000 + i * 4096 }));
    }
    assert_eq!(source.allocate_frame(), None);
    assert_eq!(get_usable_regions(&map, 0).len(), 256);
}

#[test]
fn queued_source_continues_where_bootstrap_source_stopped() {
    let map = sample_map();
    for k in 0..6usize {
        let mut bootstrap = SimpleHeapFrameAllocator::new(&map, 0);
        let mut issued: Vec<Frame> = Vec::new();
        for _ in 0..k {
            if let Some(frame) = bootstrap.allocate_frame() {
                issued.push(frame);
            }
        }
        let mut queued = HeapFrameAllocator::new(&map, bootstrap.next());
        assert_eq!(queued.next(), k);
        assert_eq!(queued.remaining(), 5usize.saturating_sub(k));
        let mut later: Vec<Frame> = Vec::new();
        while let Some(frame) = queued.allocate_frame() {
            assert!(!issued.contains(&frame));
            later.push(frame);
        }
        issued.extend(later);
        assert_eq!(issued, get_usable_regions(&map, 0));
    }
}

#[test]
fn queued_source_pops_from_the_front_and_counts() {
    let map = [usable(0x1000, 0x3000)];
    let mut queued = HeapFrameAllocator::new(&map, 0);
    assert_eq!(queued.allocate_frame(), Some(Frame { start: 0x1000 }));
    assert_eq!(queued.next(), 1);
    assert_eq!(queued.allocate_frame(), Some(Frame { start: 0x2000 }));
    assert_eq!(queued.allocate_frame(), None);
    assert_eq!(queued.next(), 3);
    assert_eq!(queued.remaining(), 0);
}

#[test]
fn phys_to_virt_adds_the_offset() {
    assert_eq!(phys_to_virt(0x1000_0000_0000, 0x1234), 0x1000_0000_1234);
    assert_eq!(phys_to_virt(0, 0), 0);
    assert_eq!(phys_to_virt(0xffff_8000_0000_0000, 0xb8000), 0xffff_8000_000b_8000);
}

#[test]
fn phys_to_virt_sign_extends_bit_47() {
    assert_eq!(phys_to_virt(0x7fff_ffff_f000, 0x1000), 0xffff_8000_0000_0000);
    assert_eq!(phys_to_virt(0x7000_0000_0000, 0x1000_0000_0042), 0xffff_8000_0000_0042);
}

#[test]
fn usable_frames_are_counted_without_storing_them() {
    assert_eq!(count_usable_frames(&sample_map()), Some(5));
    assert_eq!(count_usable_frames(&[]), Some(0));
    assert_eq!(count_usable_frames(&[usable(0, 0x10_0000_0000_0000)]), Some(1 << 40));
    let huge = usable(0, 0xffff_ffff_ffff_f000);
    assert_eq!(huge.count_frames(), 0xf_ffff_ffff_ffff);
    let many = vec![huge; 4097];
    assert_eq!(count_usable_frames(&many[..4096]), Some(0xffff_ffff_ffff_f000));
    assert_eq!(count_usable_frames(&many), None);
    assert!(all_addressable(&sample_map()));
    assert!(all_addressable(&[usable(0, 0x10_0000_0000_0000)]));
    assert!(!all_addressable(&[usable(0, 0x10_0000_0000_1000)]));
    assert!(!all_addressable(&[usable(0x1000, 0x2000), huge]));
    assert!(all_addressable(&[usable(0xffff_ffff_ffff_f000, 0x1000)]));
    assert!(all_addressable(&[usable(0x1, 0xffff_ffff_ffff_f000)]));
    assert!(all_addressable(&[MemoryRegion {
        start: 0,
        end: 0xffff_ffff_ffff_f000,
        kind: MemoryRegionKind::Bootloader,
    }]));
    assert!(usable(0x1000, 0x2000).is_addressable());
    assert!(!huge.is_addressable());
    assert_eq!(usable(0x3000, 0x1000).count_frames(), 0);
    assert_eq!(usable(0x1000, 0x3001).count_frames(), 0);
}
