use akjo_os::addr::Frame;
use akjo_os::frame_alloc::{FrameSource, HeapFrameAllocator, SimpleHeapFrameAllocator};
use akjo_os::heap::{
    heap_flags, init_allocator, init_initial_heap, init_main_heap, HeapKind, HeapManager,
    HeapWindow, INITIAL_HEAP_SIZE, INITIAL_HEAP_START, MAIN_HEAP_SIZE, MAIN_HEAP_START,
};
use akjo_os::mapper::{
    init_heap_range, is_window_valid, HeapRangeMapper, MapToError, PageFlags, PageMapping,
};
use akjo_os::memory::{MemoryRegion, MemoryRegionKind};

fn usable(start: u64, end: u64) -> MemoryRegion {
    MemoryRegion { start, end, kind: MemoryRegionKind::Usable }
}

const RW: PageFlags = PageFlags { present: true, writable: true, user_accessible: false };

#[test]
fn heap_windows_are_fixed_and_apart() {
    assert_eq!(INITIAL_HEAP_START, 0x1111_1111_0000);
    assert_eq!(INITIAL_HEAP_SIZE, 2 * 1024 * 1024);
    assert_eq!(MAIN_HEAP_START, 0x4444_4444_0000);
    assert_eq!(MAIN_HEAP_SIZE, 64 * 1024 * 1024);
    let initial = HeapWindow { start: INITIAL_HEAP_START, size: INITIAL_HEAP_SIZE };
    let main = HeapWindow { start: MAIN_HEAP_START, size: MAIN_HEAP_SIZE };
    assert!(!initial.intersects(&main));
    assert!(!main.intersects(&initial));
    assert!(initial.intersects(&initial));
}

#[test]
fn window_holds_its_addresses_only() {
    let window = HeapWindow { start: 0x1000, size: 0x2000 };
    assert!(!window.holds(0xfff));
    assert!(window.holds(0x1000));
    assert!(window.holds(0x2fff));
    assert!(!window.holds(0x3000));
    let empty = HeapWindow { start: 0x1000, size: 0 };
    assert!(!empty.holds(0x1000));
    assert!(!empty.intersects(&window));
    assert!(!window.intersects(&empty));
    let top = HeapWindow { start: u64::MAX - 1, size: u64::MAX };
    assert!(top.holds(u64::MAX));
    assert!(window.intersects(&HeapWindow { start: 0x2fff, size: 1 }));
    assert!(!window.intersects(&HeapWindow { start: 0x3000, size: 1 }));
    assert!(HeapWindow { start: 0, size: 0x1001 }.intersects(&window));
    assert!(!HeapWindow { start: 0, size: 0x1000 }.intersects(&window));
}

#[test]
fn map_range_asks_for_one_frame_per_page() {
    let map = [usable(0x100000, 0x200000)];
    for (size, pages) in [(1u64, 1usize), (4095, 1), (4096, 1), (4097, 2), (8192, 2), (40960, 10)] {
        let mut source = SimpleHeapFrameAllocator::new(&map, 0);
        let mappings = init_heap_range(&mut source, 0x4000_0000, size, RW).unwrap();
        assert_eq!(mappings.len(), pages);
        assert_eq!(source.next(), pages);
        for (i, mapping) in mappings.iter().enumerate() {
            assert_eq!(
                *mapping,
                PageMapping {
                    page: 0x4000_0000 + 4096 * i as u64,
                    frame: Frame { start: 0x100000 + 4096 * i as u64 },
                    flags: RW,
                }
            );
        }
    }
}

#[test]
fn map_range_of_empty_aligned_window_asks_for_nothing() {
    let map = [usable(0x100000, 0x200000)];
    let mut source = SimpleHeapFrameAllocator::new(&map, 0);
    assert_eq!(init_heap_range(&mut source, 0x4000_0000, 0, RW), Ok(vec![]));
    assert_eq!(source.next(), 0);
}

#[test]
fn map_range_covers_the_pages_that_an_unaligned_window_touches() {
    let map = [usable(0x100000, 0x200000)];
    let mut source = SimpleHeapFrameAllocator::new(&map, 0);
    let mappings = init_heap_range(&mut source, 0x4000_0800, 4096, RW).unwrap();
    let pages: Vec<u64> = mappings.iter().map(|m| m.page).collect();
    assert_eq!(pages, vec![0x4000_0000, 0x4000_1000]);
    let mut source = SimpleHeapFrameAllocator::new(&map, 0);
    let mappings = init_heap_range(&mut source, 0x4000_0800, 0, RW).unwrap();
    assert_eq!(mappings.len(), 1);
    let mut source = SimpleHeapFrameAllocator::new(&map, 0);
    let mappings = init_heap_range(&mut source, 0x4000_0ff0, 0x10, RW).unwrap();
    assert_eq!(mappings.len(), 1);
}

#[test]
fn map_range_in_the_upper_half() {
    let map = [usable(0x100000, 0x200000)];
    let mut source = SimpleHeapFrameAllocator::new(&map, 0);
    let mappings = init_heap_range(&mut source, 0xffff_ffff_ffff_e000, 0x1fff, RW).unwrap();
    let pages: Vec<u64> = mappings.iter().map(|m| m.page).collect();
    assert_eq!(pages, vec![0xffff_ffff_ffff_e000, 0xffff_ffff_ffff_f000]);
}

#[test]
fn map_range_fails_when_frames_run_out() {
    let map = [usable(0x100000, 0x103000)];
    let mut source = SimpleHeapFrameAllocator::new(&map, 0);
    assert_eq!(
        init_heap_range(&mut source, 0x4000_0000, 4 * 4096, RW),
        Err(MapToError::FrameAllocationFailed)
    );
    assert_eq!(source.next(), 4);
    assert_eq!(source.allocate_frame(), None);
    let mut source = SimpleHeapFrameAllocator::new(&map, 0);
    assert_eq!(init_heap_range(&mut source, 0x4000_0000, 3 * 4096, RW).unwrap().len(), 3);
    let mut queued = HeapFrameAllocator::new(&map, 1);
    assert_eq!(
        init_heap_range(&mut queued, 0x4000_0000, 3 * 4096, RW),
        Err(MapToError::FrameAllocationFailed)
    );
    assert_eq!(queued.next(), 4);
}

#[test]
fn range_mapper_steps_page_by_page() {
    let map = [usable(0x100000, 0x102000)];
    let mut source = SimpleHeapFrameAllocator::new(&map, 0);
    let mut mapper = HeapRangeMapper::new(0x7000, 3 * 4096, RW);
    assert_eq!(mapper.remaining(), 3);
    assert_eq!(
        mapper.next_mapping(&mut source),
        Some(Ok(PageMapping { page: 0x7000, frame: Frame { start: 0x100000 }, flags: RW }))
    );
    assert_eq!(
        mapper.next_mapping(&mut source),
        Some(Ok(PageMapping { page: 0x8000, frame: Frame { start: 0x101000 }, flags: RW }))
    );
    assert_eq!(mapper.remaining(), 1);
    assert_eq!(mapper.next_mapping(&mut source), Some(Err(MapToError::FrameAllocationFailed)));
    assert_eq!(mapper.remaining(), 1);
    assert_eq!(source.next(), 3);
    let more = [usable(0x200000, 0x201000)];
    let mut other = SimpleHeapFrameAllocator::new(&more, 0);
    assert_eq!(
        mapper.next_mapping(&mut other),
        Some(Ok(PageMapping { page: 0x9000, frame: Frame { start: 0x200000 }, flags: RW }))
    );
    assert_eq!(mapper.next_mapping(&mut other), None);
    assert_eq!(other.next(), 1);
}

#[test]
fn dispatcher_routes_by_phase() {
    let mut manager = HeapManager::new();
    assert!(!manager.is_initialized());
    assert_eq!(manager.alloc_target(), HeapKind::Initial);
    assert_eq!(manager.dealloc_target(), HeapKind::Initial);
    assert_eq!(manager.active_window(), None);
    manager.init_initial_heap(INITIAL_HEAP_START, INITIAL_HEAP_SIZE);
    let initial = HeapWindow { start: INITIAL_HEAP_START, size: INITIAL_HEAP_SIZE };
    assert_eq!(manager.active_window(), Some(initial));
    manager.init_main_heap(MAIN_HEAP_START, MAIN_HEAP_SIZE);
    let main = HeapWindow { start: MAIN_HEAP_START, size: MAIN_HEAP_SIZE };
    assert_eq!(manager.alloc_target(), HeapKind::Initial);
    assert_eq!(manager.active_window(), Some(initial));
    assert_eq!(manager.window(HeapKind::Main), Some(main));
    manager.init();
    assert!(manager.is_initialized());
    assert_eq!(manager.alloc_target(), HeapKind::Main);
    assert_eq!(manager.dealloc_target(), HeapKind::Main);
    assert_eq!(manager.active_window(), Some(main));
    assert_eq!(manager.window(HeapKind::Initial), Some(initial));
}

#[test]
fn activation_is_idempotent() {
    let mut once = HeapManager::new();
    once.init_initial_heap(0x1000, 0x1000);
    once.init_main_heap(0x8000, 0x4000);
    let mut twice = once;
    once.init();
    twice.init();
    twice.init();
    assert_eq!(once, twice);
    init_allocator(&mut twice);
    assert_eq!(once, twice);
    assert_eq!(twice.alloc_target(), HeapKind::Main);
    let mut fresh = HeapManager::new();
    init_allocator(&mut fresh);
    assert!(fresh.is_initialized());
}

#[test]
fn heap_flags_are_present_writable_user() {
    assert_eq!(
        heap_flags(),
        PageFlags { present: true, writable: true, user_accessible: true }
    );
}

#[test]
fn boot_sequence_sets_up_both_heaps() {
    let map = [
        MemoryRegion { start: 0, end: 0x100000, kind: MemoryRegionKind::Bootloader },
        usable(0x100000, 0x100000 + 20000 * 4096),
    ];
    let mut manager = HeapManager::new();
    let mut simple = SimpleHeapFrameAllocator::new(&map, 0);
    let first = init_initial_heap(&mut manager, &mut simple).unwrap();
    assert_eq!(first.next, 512);
    assert_eq!(first.mappings.len(), 512);
    assert_eq!(first.mappings[0].page, INITIAL_HEAP_START);
    assert_eq!(first.mappings[0].frame, Frame { start: 0x100000 });
    assert_eq!(first.mappings[0].flags, heap_flags());
    assert_eq!(first.mappings[511].page, INITIAL_HEAP_START + 511 * 4096);
    assert_eq!(first.mappings[511].frame, Frame { start: 0x100000 + 511 * 4096 });
    assert_eq!(manager.alloc_target(), HeapKind::Initial);

    let mut queued = HeapFrameAllocator::new(&map, first.next);
    let second = init_main_heap(&mut manager, &mut queued).unwrap();
    assert_eq!(second.next, 512 + 16384);
    assert_eq!(second.mappings.len(), 16384);
    assert_eq!(second.mappings[0].page, MAIN_HEAP_START);
    assert_eq!(second.mappings[0].frame, Frame { start: 0x100000 + 512 * 4096 });
    assert_eq!(second.mappings[16383].frame, Frame { start: 0x100000 + 16895 * 4096 });
    for mapping in second.mappings.iter() {
        assert!(!first.mappings.iter().any(|m| m.frame == mapping.frame));
    }
    assert_eq!(manager.alloc_target(), HeapKind::Initial);
    init_allocator(&mut manager);
    assert_eq!(manager.alloc_target(), HeapKind::Main);
    assert_eq!(
        manager.window(HeapKind::Initial),
        Some(HeapWindow { start: INITIAL_HEAP_START, size: INITIAL_HEAP_SIZE })
    );
    assert_eq!(queued.remaining(), 20000 - 512 - 16384);
}

#[test]
fn initial_heap_setup_fails_without_512_frames() {
    let map = [usable(0x100000, 0x100000 + 511 * 4096)];
    let mut manager = HeapManager::new();
    let mut simple = SimpleHeapFrameAllocator::new(&map, 0);
    let result = init_initial_heap(&mut manager, &mut simple);
    assert!(matches!(result, Err(MapToError::FrameAllocationFailed)));
    assert_eq!(manager, HeapManager::new());
    assert_eq!(simple.next(), 512);
}

#[test]
fn main_heap_setup_fails_without_16384_frames() {
    let map = [usable(0x100000, 0x100000 + 16383 * 4096)];
    let mut manager = HeapManager::new();
    let mut queued = HeapFrameAllocator::new(&map, 0);
    let result = init_main_heap(&mut manager, &mut queued);
    assert!(matches!(result, Err(MapToError::FrameAllocationFailed)));
    assert_eq!(manager.window(HeapKind::Main), None);
    assert_eq!(queued.remaining(), 0);
}

#[test]
fn windows_that_can_be_mapped() {
    assert!(is_window_valid(INITIAL_HEAP_START, INITIAL_HEAP_SIZE));
    assert!(is_window_valid(MAIN_HEAP_START, MAIN_HEAP_SIZE));
    assert!(is_window_valid(0, 1));
    assert!(!is_window_valid(0, 0));
    assert!(is_window_valid(1, 0));
    assert!(is_window_valid(0, 0x7fff_ffff_ffff));
    assert!(!is_window_valid(0, 0x8000_0000_0000));
    assert!(!is_window_valid(0x7fff_ffff_f000, 0x1000));
    assert!(is_window_valid(0x7fff_ffff_f000, 0xfff));
    assert!(!is_window_valid(0x8000_0000_0000, 0x1000));
    assert!(is_window_valid(0xffff_8000_0000_0000, 1));
    assert!(!is_window_valid(0xffff_8000_0000_0000, 0));
    assert!(is_window_valid(0xffff_8000_0000_0001, 0));
    assert!(is_window_valid(0xffff_ffff_ffff_f000, 0xfff));
    assert!(!is_window_valid(0xffff_ffff_ffff_f000, 0x1000));
    assert!(!is_window_valid(0x1000, u64::MAX));
}
