//! The two-phase heap and its dispatcher.
//!
//! The kernel has two heaps at fixed windows of its address space: a small
//! one that is set up first, with frames found by scanning the memory map,
//! and a large one that is set up with the help of the small one. Every
//! request for memory goes to the small heap until the switch, and to the
//! large heap from then on. The switch happens once and is never undone.
//!
//! [`HeapManager`] holds the state that decides where a request goes. The
//! heaps themselves, and the memory behind them, belong to the caller.

use vstd::prelude::*;
use crate::frame_alloc::{FrameSource, HeapFrameAllocator, SimpleHeapFrameAllocator};
use crate::mapper::{
    init_heap_range, page_count, window_pages, window_valid, MapToError, PageFlags, PageMapping,
};
use crate::memory::skip_frames;

verus! {

/// Where the first heap starts.
pub const INITIAL_HEAP_START: u64 = 0x_1111_1111_0000;

/// The size of the first heap: 2 MiB.
pub const INITIAL_HEAP_SIZE: u64 = 1024 * 1024 * 2;

/// Where the main heap starts.
pub const MAIN_HEAP_START: u64 = 0x_4444_4444_0000;

/// The size of the main heap: 64 MiB.
pub const MAIN_HEAP_SIZE: u64 = 1024 * 1024 * 64;

/// A window of the address space: `size` bytes from `start` on.
#[derive(Clone, Copy, Debug, PartialEq, Eq, Structural)]
pub struct HeapWindow {
    pub start: u64,
    pub size: u64,
}

impl HeapWindow {
    /// Whether the address `addr` lies in the window.
    pub open spec fn contains(self, addr: int) -> bool {
        self.start <= addr < self.start + self.size
    }

    /// Whether the two windows share an address.
    pub open spec fn overlaps(self, other: HeapWindow) -> bool {
        &&& self.size > 0
        &&& other.size > 0
        &&& self.start < other.start + other.size
        &&& other.start < self.start + self.size
    }

    /// Whether the address `addr` lies in the window.
    pub fn holds(&self, addr: u64) -> (inside: bool)
        ensures
            inside == self.contains(addr as int),
    {
        self.start <= addr && addr - self.start < self.size
    }

    /// Whether the two windows share an address.
    pub fn intersects(&self, other: &HeapWindow) -> (shared: bool)
        ensures
            shared == self.overlaps(*other),
    {
        if self.start <= other.start {
            other.start - self.start < self.size && other.size > 0
        } else {
            self.start - other.start < other.size && self.size > 0
        }
    }
}

/// One of the two heaps.
#[derive(Clone, Copy, Debug, PartialEq, Eq, Structural)]
pub enum HeapKind {
    /// The small heap of the time before the switch.
    Initial,
    /// The main heap.
    Main,
}

/// The window of the first heap.
pub open spec fn initial_window() -> HeapWindow {
    HeapWindow { start: INITIAL_HEAP_START, size: INITIAL_HEAP_SIZE }
}

/// The window of the main heap.
pub open spec fn main_window() -> HeapWindow {
    HeapWindow { start: MAIN_HEAP_START, size: MAIN_HEAP_SIZE }
}

/// The two fixed windows can be mapped and share no address.
pub proof fn lemma_heap_windows_apart()
    ensures
        !initial_window().overlaps(main_window()),
        window_valid(INITIAL_HEAP_START as int, INITIAL_HEAP_SIZE as int),
        window_valid(MAIN_HEAP_START as int, MAIN_HEAP_SIZE as int),
        page_count(INITIAL_HEAP_START as int, INITIAL_HEAP_SIZE as int) == 512,
        page_count(MAIN_HEAP_START as int, MAIN_HEAP_SIZE as int) == 16384,
{
}

/// The state of the dispatcher: the windows of the heaps that have been
/// set up, and whether the switch to the main heap has happened.
#[derive(Clone, Copy, Debug, PartialEq, Eq, Structural)]
pub struct HeapManager {
    initial_heap: Option<HeapWindow>,
    main_heap: Option<HeapWindow>,
    initialized: bool,
}

impl HeapManager {
    /// The window of the first heap, once it is set up.
    pub closed spec fn initial_heap(self) -> Option<HeapWindow> {
        self.initial_heap
    }

    /// The window of the main heap, once it is set up.
    pub closed spec fn main_heap(self) -> Option<HeapWindow> {
        self.main_heap
    }

    /// Whether the switch to the main heap has happened.
    pub closed spec fn initialized(self) -> bool {
        self.initialized
    }

    /// The heap that requests go to in this state.
    pub open spec fn active(self) -> HeapKind {
        if self.initialized() {
            HeapKind::Main
        } else {
            HeapKind::Initial
        }
    }

    /// The state after the switch: the same windows, the main heap active.
    pub closed spec fn activated(self) -> HeapManager {
        HeapManager { initialized: true, ..self }
    }

    /// The heaps that are set up share no address.
    pub open spec fn wf(self) -> bool {
        self.initial_heap().is_some() && self.main_heap().is_some()
            ==> !self.initial_heap().unwrap().overlaps(self.main_heap().unwrap())
    }

    /// A dispatcher with no heap set up, before the switch.
    pub fn new() -> (manager: Self)
        ensures
            manager.initial_heap().is_none(),
            manager.main_heap().is_none(),
            !manager.initialized(),
            manager.wf(),
    {
        Self { initial_heap: None, main_heap: None, initialized: false }
    }

    /// Records that the first heap is set up over the `size` bytes at
    /// `start`. This is done once, before the switch.
    pub fn init_initial_heap(&mut self, start: u64, size: u64)
        requires
            old(self).wf(),
            !old(self).initialized(),
            old(self).initial_heap().is_none(),
            old(self).main_heap().is_some() ==> !old(self).main_heap().unwrap().overlaps(
                HeapWindow { start, size },
            ),
        ensures
            final(self).wf(),
            final(self).initial_heap() == Some(HeapWindow { start, size }),
            final(self).main_heap() == old(self).main_heap(),
            !final(self).initialized(),
    {
        self.initial_heap = Some(HeapWindow { start, size });
    }

    /// Records that the main heap is set up over the `size` bytes at
    /// `start`. This is done once, before the switch, and does not make
    /// the main heap the active one.
    pub fn init_main_heap(&mut self, start: u64, size: u64)
        requires
            old(self).wf(),
            !old(self).initialized(),
            old(self).main_heap().is_none(),
            old(self).initial_heap().is_some() ==> !old(self).initial_heap().unwrap().overlaps(
                HeapWindow { start, size },
            ),
        ensures
            final(self).wf(),
            final(self).main_heap() == Some(HeapWindow { start, size }),
            final(self).initial_heap() == old(self).initial_heap(),
            !final(self).initialized(),
    {
        self.main_heap = Some(HeapWindow { start, size });
    }

    /// The switch: from now on requests go to the main heap. The windows
    /// stay as they are, so what was handed out of the first heap stays
    /// where it is. A second switch changes nothing.
    pub fn init(&mut self)
        ensures
            *final(self) == old(self).activated(),
            final(self).initialized(),
            final(self).active() == HeapKind::Main,
            final(self).initial_heap() == old(self).initial_heap(),
            final(self).main_heap() == old(self).main_heap(),
            old(self).wf() ==> final(self).wf(),
    {
        self.initialized = true;
    }

    /// Whether the switch to the main heap has happened.
    pub fn is_initialized(&self) -> (initialized: bool)
        ensures
            initialized == self.initialized(),
    {
        self.initialized
    }

    /// The heap that serves a request for memory: the first heap before
    /// the switch, the main heap after it. There is no falling back from
    /// one to the other.
    pub fn alloc_target(&self) -> (heap: HeapKind)
        ensures
            heap == self.active(),
            heap == HeapKind::Main <==> self.initialized(),
    {
        if self.initialized {
            HeapKind::Main
        } else {
            HeapKind::Initial
        }
    }

    /// The heap that takes back memory that is given up: the heap that is
    /// active at the time, as for a request.
    pub fn dealloc_target(&self) -> (heap: HeapKind)
        ensures
            heap == self.active(),
            heap == HeapKind::Main <==> self.initialized(),
    {
        if self.initialized {
            HeapKind::Main
        } else {
            HeapKind::Initial
        }
    }

    /// The window of one of the heaps, once it is set up.
    pub fn window(&self, heap: HeapKind) -> (window: Option<HeapWindow>)
        ensures
            window == match heap {
                HeapKind::Initial => self.initial_heap(),
                HeapKind::Main => self.main_heap(),
            },
    {
        match heap {
            HeapKind::Initial => self.initial_heap,
            HeapKind::Main => self.main_heap,
        }
    }

    /// The window that requests are served from in this state, if that
    /// heap is set up.
    pub fn active_window(&self) -> (window: Option<HeapWindow>)
        ensures
            window == if self.initialized() {
                self.main_heap()
            } else {
                self.initial_heap()
            },
    {
        self.window(self.alloc_target())
    }
}

/// The switch is idempotent: a state that has been switched twice is the
/// state that has been switched once, and requests go to the main heap
/// after either.
pub proof fn lemma_activation_idempotent(manager: HeapManager)
    ensures
        manager.activated().activated() == manager.activated(),
        manager.activated().active() == HeapKind::Main,
        manager.activated().initial_heap() == manager.initial_heap(),
        manager.activated().main_heap() == manager.main_heap(),
{
}

/// Before the switch every request is served from the window of the first
/// heap and after it from the window of the main heap; no address belongs
/// to both, so an address handed out before the switch is not handed out
/// again after it, and the first window is the same before and after.
pub proof fn lemma_dispatch_by_phase(manager: HeapManager, addr: int)
    requires
        manager.wf(),
        !manager.initialized(),
        manager.initial_heap().is_some(),
        manager.main_heap().is_some(),
    ensures
        manager.active() == HeapKind::Initial,
        manager.activated().active() == HeapKind::Main,
        manager.activated().initial_heap() == manager.initial_heap(),
        manager.activated().wf(),
        !(manager.initial_heap().unwrap().contains(addr) && manager.main_heap().unwrap().contains(
            addr,
        )),
{
}

/// Makes the main heap the active one.
pub fn init_allocator(allocator: &mut HeapManager)
    ensures
        *final(allocator) == old(allocator).activated(),
        final(allocator).active() == HeapKind::Main,
{
    allocator.init();
}

/// The protection of heap memory: present, writable, open to user mode.
pub fn heap_flags() -> (flags: PageFlags)
    ensures
        flags == (PageFlags { present: true, writable: true, user_accessible: true }),
{
    PageFlags { present: true, writable: true, user_accessible: true }
}

/// What setting up a heap leaves to the caller: the mappings to install
/// before the heap is touched, and the cursor of the frame source, at which
/// the next source is to continue.
pub struct HeapSetup {
    pub mappings: Vec<PageMapping>,
    pub next: usize,
}

/// What `setup` has to hold after a heap over `window` was set up with the
/// frames `supply`, by a source that stood at `cursor`.
pub open spec fn setup_matches(
    setup: HeapSetup,
    window: HeapWindow,
    supply: Seq<crate::addr::Frame>,
    cursor: int,
) -> bool {
    let pages = window_pages(window.start as int, window.size as int);
    &&& setup.mappings@.len() == pages.len()
    &&& setup.next == cursor + pages.len()
    &&& forall|i: int|
        0 <= i < pages.len() ==> #[trigger] setup.mappings@[i] == (PageMapping {
            page: pages[i],
            frame: supply[i],
            flags: PageFlags { present: true, writable: true, user_accessible: true },
        })
}

/// Sets up the first heap: takes one frame per page of its window from
/// `frame_allocator`, and records the heap in `allocator`.
///
/// Fails with `FrameAllocationFailed`, and leaves `allocator` as it was,
/// exactly when the source has fewer than 512 frames.
pub fn init_initial_heap(
    allocator: &mut HeapManager,
    frame_allocator: &mut SimpleHeapFrameAllocator,
) -> (result: Result<HeapSetup, MapToError>)
    requires
        old(allocator).wf(),
        !old(allocator).initialized(),
        old(allocator).initial_heap().is_none(),
        old(allocator).main_heap().is_some() ==> !old(allocator).main_heap().unwrap().overlaps(
            initial_window(),
        ),
        old(frame_allocator).wf(),
        old(frame_allocator).cursor() + 512 <= usize::MAX,
    ensures
        final(frame_allocator).wf(),
        final(allocator).wf(),
        final(allocator).main_heap() == old(allocator).main_heap(),
        !final(allocator).initialized(),
        result.is_ok() <==> 512 <= old(frame_allocator).pending().len(),
        match result {
            Ok(setup) => {
                &&& final(allocator).initial_heap() == Some(initial_window())
                &&& setup_matches(
                    setup,
                    initial_window(),
                    old(frame_allocator).pending(),
                    old(frame_allocator).cursor(),
                )
                &&& final(frame_allocator).cursor() == old(frame_allocator).cursor() + 512
                &&& final(frame_allocator).pending() == skip_frames(
                    old(frame_allocator).pending(),
                    512,
                )
            },
            Err(error) => {
                &&& error == MapToError::FrameAllocationFailed
                &&& final(allocator).initial_heap().is_none()
                &&& final(frame_allocator).pending().len() == 0
            },
        },
{
    proof {
        lemma_heap_windows_apart();
    }
    match init_heap_range(frame_allocator, INITIAL_HEAP_START, INITIAL_HEAP_SIZE, heap_flags()) {
        Ok(mappings) => {
            allocator.init_initial_heap(INITIAL_HEAP_START, INITIAL_HEAP_SIZE);
            Ok(HeapSetup { mappings, next: frame_allocator.next() })
        },
        Err(error) => Err(error),
    }
}

/// Sets up the main heap: takes one frame per page of its window from
/// `frame_allocator`, and records the heap in `allocator`. The main heap
/// is not made the active one.
///
/// Fails with `FrameAllocationFailed`, and leaves `allocator` as it was,
/// exactly when the source has fewer than 16384 frames.
pub fn init_main_heap(
    allocator: &mut HeapManager,
    frame_allocator: &mut HeapFrameAllocator,
) -> (result: Result<HeapSetup, MapToError>)
    requires
        old(allocator).wf(),
        !old(allocator).initialized(),
        old(allocator).main_heap().is_none(),
        old(allocator).initial_heap().is_some() ==> !old(allocator).initial_heap().unwrap().overlaps(
            main_window(),
        ),
        old(frame_allocator).wf(),
        old(frame_allocator).cursor() + 16384 <= usize::MAX,
    ensures
        final(frame_allocator).wf(),
        final(allocator).wf(),
        final(allocator).initial_heap() == old(allocator).initial_heap(),
        !final(allocator).initialized(),
        result.is_ok() <==> 16384 <= old(frame_allocator).pending().len(),
        match result {
            Ok(setup) => {
                &&& final(allocator).main_heap() == Some(main_window())
                &&& setup_matches(
                    setup,
                    main_window(),
                    old(frame_allocator).pending(),
                    old(frame_allocator).cursor(),
                )
                &&& final(frame_allocator).cursor() == old(frame_allocator).cursor() + 16384
                &&& final(frame_allocator).pending() == skip_frames(
                    old(frame_allocator).pending(),
                    16384,
                )
            },
            Err(error) => {
                &&& error == MapToError::FrameAllocationFailed
                &&& final(allocator).main_heap().is_none()
                &&& final(frame_allocator).pending().len() == 0
            },
        },
{
    proof {
        lemma_heap_windows_apart();
    }
    match init_heap_range(frame_allocator, MAIN_HEAP_START, MAIN_HEAP_SIZE, heap_flags()) {
        Ok(mappings) => {
            allocator.init_main_heap(MAIN_HEAP_START, MAIN_HEAP_SIZE);
            Ok(HeapSetup { mappings, next: frame_allocator.next() })
        },
        Err(error) => Err(error),
    }
}

} // verus!
