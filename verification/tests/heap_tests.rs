use rustux::mm::allocator::{
    allocate, deallocate, heap_available, heap_size, heap_usage, init, init_aligned,
    LinkedListAllocator, DEFAULT_HEAP_SIZE,
};

const TEST_HEAP_SIZE: usize = 64 * 1024;

#[test]
fn test_allocator_init() {
    let heap: [u8; TEST_HEAP_SIZE] = [0; TEST_HEAP_SIZE];
    let mut a = LinkedListAllocator::new();
    init(&mut a, heap.as_ptr() as usize, TEST_HEAP_SIZE);
    assert_eq!(heap_size(&a), TEST_HEAP_SIZE);
    assert_eq!(heap_usage(&a), 0);
    assert!(heap_available(&a) > 0);
}

#[test]
fn test_allocator_allocate() {
    let heap: [u8; TEST_HEAP_SIZE] = [0; TEST_HEAP_SIZE];
    let mut a = LinkedListAllocator::new();
    init(&mut a, heap.as_ptr() as usize, TEST_HEAP_SIZE);

    let ptr = allocate(&mut a, 1024, 8);
    assert!(ptr != 0);
    assert!(heap_usage(&a) >= 1024);

    deallocate(&mut a, ptr, 1024, 8);
}

#[test]
fn test_fresh_heap_is_one_free_block() {
    let mut a = LinkedListAllocator::new();
    init(&mut a, 0x10_0000, 4096);
    assert_eq!(a.size(), 4096);
    assert_eq!(a.usage(), 0);
    assert_eq!(a.available(), 4096);
}

#[test]
fn test_uninitialized_allocator() {
    let mut a = LinkedListAllocator::new();
    assert_eq!(a.allocate(16, 8), 0);
    assert_eq!(a.usage(), 0);
    assert_eq!(a.available(), 0);
    assert_eq!(a.size(), 0);
}

#[test]
fn test_allocate_zero_size_is_null() {
    let mut a = LinkedListAllocator::new();
    a.init(0x10_0000, 4096);
    assert_eq!(a.allocate(0, 8), 0);
    assert_eq!(a.available(), 4096);
}

#[test]
fn test_allocate_payload_after_header() {
    let mut a = LinkedListAllocator::new();
    a.init(0x10_0000, 4096);
    // The payload starts right after the 40-byte header (already 8-aligned).
    assert_eq!(a.allocate(100, 8), 0x10_0000 + 40);
    // The block is in use with its full size; the rest became a free block.
    assert_eq!(a.usage(), 4096);
    assert_eq!(a.available(), 4096 - 40 - 100);
}

#[test]
fn test_allocate_aligned() {
    let mut a = LinkedListAllocator::new();
    a.init(0x10_0000, 4096);
    let p = a.allocate(32, 64);
    assert_eq!(p, 0x10_0040);
    assert_eq!(p % 64, 0);
}

#[test]
fn test_allocate_too_large_is_null() {
    let mut a = LinkedListAllocator::new();
    a.init(0x10_0000, 4096);
    assert_eq!(a.allocate(4096 - 39, 8), 0);
    assert_eq!(a.allocate(4096 - 40, 8), 0x10_0000 + 40);
}

#[test]
fn test_allocate_twice_distinct() {
    let mut a = LinkedListAllocator::new();
    a.init(0x10_0000, 4096);
    let p = a.allocate(100, 8);
    let q = a.allocate(100, 8);
    assert_eq!(p, 0x10_0000 + 40);
    // The next block starts after the first payload; its payload is 8-aligned.
    assert_eq!(q, 0x10_0000 + 184);
}

#[test]
fn test_deallocate_restores_usage() {
    let mut a = LinkedListAllocator::new();
    a.init(0x10_0000, 4096);
    let p = a.allocate(100, 8);
    assert_eq!(a.usage(), 4096);
    a.deallocate(p, 100, 8);
    assert_eq!(a.usage(), 0);
}

#[test]
fn test_deallocate_null_is_noop() {
    let mut a = LinkedListAllocator::new();
    a.init(0x10_0000, 4096);
    a.deallocate(0, 0, 0);
    assert_eq!(a.available(), 4096);
    assert_eq!(a.usage(), 0);
}

#[test]
fn test_init_aligned_rounds_to_pages() {
    let mut a = LinkedListAllocator::new();
    let start = init_aligned(&mut a, 0x10_0001, 5000);
    assert_eq!(start, 0x10_1000);
    assert_eq!(heap_size(&a), 8192);
    assert_eq!(heap_available(&a), 8192);
    assert_eq!(DEFAULT_HEAP_SIZE, 16 * 1024 * 1024);
}

#[test]
fn test_walk_checks_after_init_and_allocation() {
    let mut a = LinkedListAllocator::new();
    a.init(0x10_0000, 4096);
    assert!(a.free_list_ends());
    assert!(a.blocks_walk_ends());
    let p = a.allocate(100, 8);
    assert!(p >= 0x10_0000 + 40 && p + 100 <= 0x10_0000 + 4096);
    assert!(a.free_list_ends());
    assert!(a.blocks_walk_ends());
}

/// Allocating, freeing and allocating the same size again writes the split
/// block over the one already on the free list, whose next field then names
/// itself: the free list no longer ends, and the check says so.
#[test]
fn test_free_list_check_catches_cycle() {
    let mut a = LinkedListAllocator::new();
    a.init(0x10_0000, 4096);
    let p = a.allocate(100, 8);
    a.deallocate(p, 100, 8);
    assert!(a.free_list_ends());
    assert_eq!(a.allocate(100, 8), p);
    assert!(!a.free_list_ends());
}

/// A freed block keeps its whole size, over the blocks split off from it,
/// so a later allocation from it can cover a block still in use.
#[test]
fn test_freed_block_spans_split_blocks() {
    let mut a = LinkedListAllocator::new();
    a.init(0x10_0000, 4096);
    let first = a.allocate(100, 8);
    let second = a.allocate(100, 8);
    assert_eq!(second, 0x10_0000 + 184);
    a.deallocate(first, 100, 8);
    assert!(a.free_list_ends());
    let third = a.allocate(1000, 8);
    assert_eq!(third, 0x10_0000 + 40);
    assert!(third + 1000 > second);
}
