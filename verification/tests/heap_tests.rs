use kernel::heap::{has_init, init, Heap, HeapError};
use kernel::interrupts::InterruptState;
use kernel::paging::{self, KernelLayout, Page, PagingError};

#[test]
fn allocation_free_reallocation_reuses_the_address() {
    let mut heap = Heap::new(0x52_3000, 4096);
    let first = heap.alloc_internal(&mut InterruptState { enabled: true }, 64, 1);
    assert_eq!(first, Some(0x52_3005));
    heap.dealloc_internal(&mut InterruptState { enabled: true }, first.unwrap());
    assert_eq!(heap.alloc_internal(&mut InterruptState { enabled: true }, 64, 1), first);
}

#[test]
fn round_trip_holds_in_a_heap_that_is_in_use() {
    let mut heap = Heap::new(0x1000, 4096);
    let a = heap.alloc_internal(&mut InterruptState { enabled: true }, 100, 8).unwrap();
    let b = heap.alloc_internal(&mut InterruptState { enabled: true }, 64, 16).unwrap();
    let c = heap.alloc_internal(&mut InterruptState { enabled: true }, 30, 4).unwrap();
    assert!(a < b && b < c);
    heap.dealloc_internal(&mut InterruptState { enabled: true }, b);
    assert_eq!(heap.alloc_internal(&mut InterruptState { enabled: true }, 64, 16), Some(b));
    heap.dealloc_internal(&mut InterruptState { enabled: true }, a);
    heap.dealloc_internal(&mut InterruptState { enabled: true }, c);
    assert_eq!(heap.alloc_internal(&mut InterruptState { enabled: true }, 30, 4), Some(a));
}

#[test]
fn blocks_follow_each_other_with_their_headers() {
    let mut heap = Heap::new(0x52_3000, 4096);
    assert_eq!(heap.alloc_internal(&mut InterruptState { enabled: true }, 64, 1), Some(0x52_3005));
    assert_eq!(heap.alloc_internal(&mut InterruptState { enabled: true }, 32, 1), Some(0x52_304A));
    assert_eq!(heap.alloc_internal(&mut InterruptState { enabled: true }, 1, 1), Some(0x52_306F));
    assert_eq!(heap.memory(), 0x52_3000);
    assert_eq!(heap.size(), 4096);
}

#[test]
fn alignment_is_honoured() {
    let mut heap = Heap::new(0x52_3000, 8192);
    assert_eq!(heap.alloc_internal(&mut InterruptState { enabled: true }, 10, 16), Some(0x52_3010));
    // The block holds the bytes skipped as well: 11 + 10.
    assert_eq!(heap.alloc_internal(&mut InterruptState { enabled: true }, 1, 1), Some(0x52_3000 + 5 + 21 + 5));
    let page = heap.alloc_internal(&mut InterruptState { enabled: true }, 100, 4096).unwrap();
    assert_eq!(page, 0x52_4000);
}

#[test]
fn a_free_block_is_split_when_enough_is_left() {
    let mut heap = Heap::new(0x52_3000, 4096);
    let a = heap.alloc_internal(&mut InterruptState { enabled: true }, 64, 1).unwrap();
    let b = heap.alloc_internal(&mut InterruptState { enabled: true }, 8, 1).unwrap();
    heap.dealloc_internal(&mut InterruptState { enabled: true }, a);
    // 64 - 16 leaves 48 bytes: a header and a free block of 43.
    assert_eq!(heap.alloc_internal(&mut InterruptState { enabled: true }, 16, 1), Some(a));
    assert_eq!(heap.alloc_internal(&mut InterruptState { enabled: true }, 43, 1), Some(a + 16 + 5));
    // Nothing is left between the two and the next block.
    assert_eq!(heap.alloc_internal(&mut InterruptState { enabled: true }, 1, 1), Some(b + 8 + 5));
}

#[test]
fn a_free_block_is_taken_whole_when_little_is_left() {
    let mut heap = Heap::new(0x52_3000, 4096);
    let a = heap.alloc_internal(&mut InterruptState { enabled: true }, 64, 1).unwrap();
    let b = heap.alloc_internal(&mut InterruptState { enabled: true }, 8, 1).unwrap();
    heap.dealloc_internal(&mut InterruptState { enabled: true }, a);
    // 64 - 59 leaves 5 bytes, no more than a header: no split.
    assert_eq!(heap.alloc_internal(&mut InterruptState { enabled: true }, 59, 1), Some(a));
    assert_eq!(heap.alloc_internal(&mut InterruptState { enabled: true }, 1, 1), Some(b + 8 + 5));
    heap.dealloc_internal(&mut InterruptState { enabled: true }, a);
    // The block still holds 64 bytes.
    assert_eq!(heap.alloc_internal(&mut InterruptState { enabled: true }, 64, 1), Some(a));
}

#[test]
fn free_neighbours_are_joined_on_demand() {
    let mut heap = Heap::new(0x52_3000, 4096);
    let a = heap.alloc_internal(&mut InterruptState { enabled: true }, 64, 1).unwrap();
    let b = heap.alloc_internal(&mut InterruptState { enabled: true }, 64, 1).unwrap();
    let c = heap.alloc_internal(&mut InterruptState { enabled: true }, 64, 1).unwrap();
    heap.dealloc_internal(&mut InterruptState { enabled: true }, a);
    heap.dealloc_internal(&mut InterruptState { enabled: true }, b);
    // 64 + 5 + 64 = 133 bytes in the run; 100 are taken, 28 stay free.
    assert_eq!(heap.alloc_internal(&mut InterruptState { enabled: true }, 100, 1), Some(a));
    assert_eq!(heap.alloc_internal(&mut InterruptState { enabled: true }, 28, 1), Some(a + 100 + 5));
    assert_eq!(heap.alloc_internal(&mut InterruptState { enabled: true }, 1, 1), Some(c + 64 + 5));
}

#[test]
fn a_used_block_ends_the_run() {
    let mut heap = Heap::new(0x52_3000, 4096);
    let a = heap.alloc_internal(&mut InterruptState { enabled: true }, 64, 1).unwrap();
    let b = heap.alloc_internal(&mut InterruptState { enabled: true }, 64, 1).unwrap();
    let c = heap.alloc_internal(&mut InterruptState { enabled: true }, 64, 1).unwrap();
    heap.dealloc_internal(&mut InterruptState { enabled: true }, a);
    heap.dealloc_internal(&mut InterruptState { enabled: true }, c);
    let _ = b;
    // The run from the first block ends at the second; the last block
    // is free but too small, and the walk reaches the tail from it.
    assert_eq!(heap.alloc_internal(&mut InterruptState { enabled: true }, 100, 1), Some(c));
    assert_eq!(heap.alloc_internal(&mut InterruptState { enabled: true }, 64, 1), Some(a));
}

#[test]
fn the_arena_runs_out() {
    let mut heap = Heap::new(0x1000, 20);
    assert_eq!(heap.alloc_internal(&mut InterruptState { enabled: true }, 64, 1), None);
    assert_eq!(heap.alloc_internal(&mut InterruptState { enabled: true }, 11, 1), None);
    assert_eq!(heap.alloc_internal(&mut InterruptState { enabled: true }, 10, 1), Some(0x1005));
    assert_eq!(heap.alloc_internal(&mut InterruptState { enabled: true }, 1, 1), None);
    heap.dealloc_internal(&mut InterruptState { enabled: true }, 0x1005);
    assert_eq!(heap.alloc_internal(&mut InterruptState { enabled: true }, 10, 1), Some(0x1005));
    let mut tiny = Heap::new(0x1000, 5);
    assert_eq!(tiny.alloc_internal(&mut InterruptState { enabled: true }, 1, 1), None);
}

#[test]
fn giving_back_an_address_in_no_block_changes_nothing() {
    let mut heap = Heap::new(0x1000, 256);
    let a = heap.alloc_internal(&mut InterruptState { enabled: true }, 16, 1).unwrap();
    heap.dealloc_internal(&mut InterruptState { enabled: true }, 0x900);
    heap.dealloc_internal(&mut InterruptState { enabled: true }, a + 16);
    heap.dealloc_internal(&mut InterruptState { enabled: true }, 0x1000);
    assert_eq!(heap.alloc_internal(&mut InterruptState { enabled: true }, 16, 1), Some(a + 16 + 5));
    // An address inside the payload names the block.
    heap.dealloc_internal(&mut InterruptState { enabled: true }, a + 15);
    assert_eq!(heap.alloc_internal(&mut InterruptState { enabled: true }, 16, 1), Some(a));
}

#[test]
fn heap_init_maps_the_heap_and_marks_it_live() {
    let layout = KernelLayout { load_addr: 0x100_0000, end_addr: 0x100_1000 };
    let mut booted = paging::init(&layout).ok().unwrap();
    assert!(!has_init(&booted.paging));
    let offered = 0x52_3000 - 0x10_0000 + 0x3000;
    let heap = init(&mut booted.kernel_dir, &mut booted.paging, booted.heap_start, offered)
        .ok()
        .unwrap();
    assert!(has_init(&booted.paging));
    assert_eq!(heap.memory(), 0x52_3000);
    assert_eq!(heap.size(), 0x3000);
    assert_eq!(booted.kernel_dir.get_page(0x52_3000), Some(Page(0x52_3007)));
    assert_eq!(booted.kernel_dir.get_page(0x52_5000), Some(Page(0x52_5007)));
    assert_eq!(booted.kernel_dir.get_page(0x52_6000), Some(Page(0)));
    assert!(booted.paging.frames.frame_used(0x525));
}

#[test]
fn heap_init_refuses_a_bad_extent() {
    let layout = KernelLayout { load_addr: 0x100_0000, end_addr: 0x100_1000 };
    let mut booted = paging::init(&layout).ok().unwrap();
    let below = init(&mut booted.kernel_dir, &mut booted.paging, 0xF_F000, 0x10_0000);
    assert_eq!(below.err(), Some(HeapError::BadExtent));
    let too_small = init(&mut booted.kernel_dir, &mut booted.paging, 0x52_3000, 0x42_3004);
    assert_eq!(too_small.err(), Some(HeapError::BadExtent));
    let too_far = init(&mut booted.kernel_dir, &mut booted.paging, 0xF000_0000, 0xFFFF_FFFF);
    assert_eq!(too_far.err(), Some(HeapError::BadExtent));
    assert!(!has_init(&booted.paging));
}

#[test]
fn heap_init_reports_a_page_that_is_mapped_already() {
    let layout = KernelLayout { load_addr: 0x52_4000, end_addr: 0x52_5000 };
    let mut booted = paging::init(&layout).ok().unwrap();
    let r = init(&mut booted.kernel_dir, &mut booted.paging, 0x52_3000, 0x42_3000 + 0x3000);
    assert_eq!(r.err(), Some(HeapError::Mapping(PagingError::AlreadyMapped)));
    assert!(!has_init(&booted.paging));
}

#[test]
fn interrupts_are_on_after_the_heap_was_used() {
    let mut heap = Heap::new(0x1000, 256);
    let mut state = InterruptState { enabled: false };
    let a = heap.alloc_internal(&mut state, 16, 1).unwrap();
    assert!(state.enabled);
    state.enabled = false;
    heap.dealloc_internal(&mut state, a);
    assert!(state.enabled);
    state.enabled = false;
    assert_eq!(heap.alloc_internal(&mut state, 1000, 1), None);
    assert!(state.enabled);
}
