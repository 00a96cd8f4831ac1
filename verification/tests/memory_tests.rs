use woflos::memory::frame::{alloc_frame, get_stats, FrameAllocator, MAX_FRAMES};
use woflos::memory::heap::{heap_used, BumpAllocator, HEAP_SIZE};
use woflos::memory::{align_up, init, PAGE_SIZE};

#[test]
fn page_size() {
    assert_eq!(PAGE_SIZE, 4096);
    assert_eq!(HEAP_SIZE, 64 * 1024);
    assert_eq!(MAX_FRAMES, 32768);
}

#[test]
fn align_up_rounds_to_the_next_page() {
    assert_eq!(align_up(0), 0);
    assert_eq!(align_up(1), 4096);
    assert_eq!(align_up(4095), 4096);
    assert_eq!(align_up(4096), 4096);
    assert_eq!(align_up(4097), 8192);
    assert_eq!(align_up(0x8020_0001), 0x8020_1000);
}

#[test]
fn heap_that_is_not_set_up_gives_nothing() {
    let mut heap = BumpAllocator::new();
    assert_eq!(heap.allocate(8, 8), None);
    assert_eq!(heap.used(), 0);
}

#[test]
fn heap_bumps_and_aligns() {
    let mut heap = woflos::memory::heap::init(0x1000);
    assert_eq!(heap.allocate(32, 8), Some(0x1000));
    assert_eq!(heap.used(), 32);
    assert_eq!(heap.allocate(3, 1), Some(0x1020));
    assert_eq!(heap.allocate(8, 16), Some(0x1030));
    assert_eq!(heap.used(), 0x38);
    assert_eq!(heap_used(&heap), 0x38);
    assert_eq!(heap.allocate(0, 4096), Some(0x2000));
    assert_eq!(heap.used(), 0x1000);
}

#[test]
fn heap_runs_out() {
    let mut heap = woflos::memory::heap::init(0x10_0000);
    assert_eq!(heap.allocate(HEAP_SIZE + 1, 1), None);
    assert_eq!(heap.used(), 0);
    assert_eq!(heap.allocate(HEAP_SIZE, 1), Some(0x10_0000));
    assert_eq!(heap.used(), HEAP_SIZE);
    assert_eq!(heap.allocate(1, 1), None);
    assert_eq!(heap.allocate(0, 1), Some(0x10_0000 + HEAP_SIZE));
    assert_eq!(heap.used(), HEAP_SIZE);
}

#[test]
fn heap_refuses_what_would_overflow() {
    let mut heap = woflos::memory::heap::init(0x1001);
    assert_eq!(heap.allocate(usize::MAX, 1), None);
    assert_eq!(heap.allocate(1, 1 << 63), None);
    assert_eq!(heap.used(), 0);
    assert_eq!(heap.allocate(1, 1), Some(0x1001));
}

#[test]
fn heap_at_the_null_address_gives_nothing() {
    let mut heap = woflos::memory::heap::init(0);
    assert_eq!(heap.allocate(1, 1), None);
}

#[test]
fn heap_dealloc_changes_nothing() {
    let mut heap = woflos::memory::heap::init(0x1000);
    let block = heap.allocate(64, 8).expect("room for 64 bytes");
    heap.dealloc(block, 64, 8);
    assert_eq!(heap.used(), 64);
    assert_eq!(heap.allocate(8, 8), Some(0x1040));
}

#[test]
fn empty_frame_allocator() {
    let mut frames = FrameAllocator::new();
    assert_eq!(frames.stats(), (0, 0));
    assert_eq!(frames.allocate(), None);
}

#[test]
fn frame_allocator_starts_after_the_kernel() {
    let mut frames = woflos::memory::frame::init(0x8020_0001, 0x8020_4000);
    // Frames are the whole pages from 0x8020_1000 to 0x8020_4000.
    assert_eq!(frames.stats(), (0, 3));
    assert_eq!(frames.allocate(), Some(0x8020_1000));
    assert_eq!(frames.allocate(), Some(0x8020_2000));
    assert_eq!(get_stats(&frames), (2, 3));
    assert_eq!(alloc_frame(&mut frames), Some(0x8020_3000));
    assert_eq!(frames.stats(), (3, 3));
    assert_eq!(frames.allocate(), None);
    assert_eq!(frames.stats(), (3, 3));
}

#[test]
fn frame_allocator_keeps_at_most_max_frames() {
    let frames = woflos::memory::frame::init(0x8020_0000, 0x8800_0000 + 0x1000_0000);
    assert_eq!(frames.stats(), (0, 32768));
    let frames = woflos::memory::frame::init(0x8020_0000, 0x8800_0000);
    assert_eq!(frames.stats(), (0, (0x8800_0000 - 0x8020_0000) / 4096));
}

#[test]
fn frame_allocator_drops_a_partial_last_page() {
    let frames = woflos::memory::frame::init(0x1000, 0x3fff);
    assert_eq!(frames.stats(), (0, 2));
    let frames = woflos::memory::frame::init(0x1000, 0x1000);
    assert_eq!(frames.stats(), (0, 0));
}

#[test]
fn frame_allocator_hands_out_every_frame_once() {
    let mut frames = woflos::memory::frame::init(0x10_0000, 0x10_0000 + 200 * 4096);
    let mut seen = Vec::new();
    for i in 0..200usize {
        let frame = frames.allocate().expect("a free frame");
        assert_eq!(frame, 0x10_0000 + i * 4096);
        assert!(!seen.contains(&frame));
        seen.push(frame);
        assert_eq!(frames.stats(), (i + 1, 200));
    }
    assert_eq!(frames.allocate(), None);
}

#[test]
fn memory_init_sets_up_both() {
    let (mut frames, mut heap) = init(0x8020_0001, 0x8020_3000, 0x9000_0000);
    assert_eq!(frames.stats(), (0, 2));
    assert_eq!(frames.allocate(), Some(0x8020_1000));
    assert_eq!(heap.allocate(16, 16), Some(0x9000_0000));
}
