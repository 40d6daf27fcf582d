use rustux::arch::amd64::mm::page_tables::RxStatus;
use rustux::mm::allocator::LinkedListAllocator;
use rustux::arch::amd64::init::{alloc_kernel_stack, STACK_PAGES};
use rustux::init::{init_early, init_memory, BootAllocator, InitState, BOOT_ALLOC_SIZE};
use rustux::mm::pmm::{
    align_page_down, align_page_up, alloc_page, bytes_to_pages, free_page, is_page_aligned,
    paddr_to_page, paddr_to_vaddr, paddr_to_vaddr_user_zone, pages_to_bytes, pmm_add_arena,
    pmm_alloc_contiguous, pmm_alloc_kernel_page, pmm_alloc_page, pmm_alloc_user_page,
    pmm_count_free_pages, pmm_count_total_bytes, pmm_count_total_pages, pmm_free_contiguous,
    pmm_free_page, pmm_init_early, pmm_reserve_pages, ArenaInfo, PageState, Pmm,
    ARENA_FLAG_KERNEL, ARENA_FLAG_LOW_MEM, ARENA_FLAG_USER, PMM_ALLOC_FLAG_ANY,
    PMM_ALLOC_FLAG_KERNEL, PMM_ALLOC_FLAG_LOW_MEM, PMM_ALLOC_FLAG_USER,
};

fn one_arena(pages: usize, flags: u32) -> Pmm {
    let mut pmm = Pmm::new();
    let info = ArenaInfo::new(b"test", flags, 0, 0x10_0000, pages * 4096);
    assert_eq!(pmm_add_arena(&mut pmm, info), RxStatus::OK);
    pmm
}

#[test]
fn test_page_alignment_helpers() {
    assert!(is_page_aligned(0x2000));
    assert!(!is_page_aligned(0x2001));
    assert_eq!(align_page_down(0x2fff), 0x2000);
    assert_eq!(align_page_up(0x2001), 0x3000);
    assert_eq!(align_page_up(0x2000), 0x2000);
    assert_eq!(bytes_to_pages(1), 1);
    assert_eq!(bytes_to_pages(4096), 1);
    assert_eq!(bytes_to_pages(4097), 2);
    assert_eq!(pages_to_bytes(3), 12288);
}

#[test]
fn test_arena_info_name_truncated() {
    let info = ArenaInfo::new(b"a-very-long-arena-name", 1, 2, 0x1000, 0x3000);
    assert_eq!(&info.name, b"a-very-long-aren");
    assert_eq!(info.page_count(), 3);
    assert_eq!(info.end(), 0x4000);
}

#[test]
fn test_add_arena_errors() {
    let mut pmm = Pmm::new();
    let tiny = ArenaInfo::new(b"tiny", 0, 0, 0, 100);
    assert_eq!(pmm_add_arena(&mut pmm, tiny), RxStatus::ERR_INVALID_ARGS);
    for i in 0..8u64 {
        let info = ArenaInfo::new(b"a", 0, 0, i * 0x10_0000, 4096);
        assert_eq!(pmm_add_arena(&mut pmm, info), RxStatus::OK);
    }
    let extra = ArenaInfo::new(b"a", 0, 0, 0x100_0000, 4096);
    assert_eq!(pmm_add_arena(&mut pmm, extra), RxStatus::ERR_NO_MEMORY);
    assert_eq!(pmm.arena_count(), 8);
}

#[test]
fn test_alloc_first_free_then_exhaust() {
    let mut pmm = one_arena(2, ARENA_FLAG_LOW_MEM);
    assert_eq!(pmm_count_free_pages(&pmm), 2);
    assert_eq!(pmm_alloc_page(&mut pmm, PMM_ALLOC_FLAG_ANY), Ok(0x10_0000));
    assert_eq!(pmm_alloc_page(&mut pmm, PMM_ALLOC_FLAG_LOW_MEM), Ok(0x10_1000));
    assert_eq!(pmm_alloc_page(&mut pmm, PMM_ALLOC_FLAG_ANY), Err(RxStatus::ERR_NO_MEMORY));
    assert_eq!(pmm_count_free_pages(&pmm), 0);
}

#[test]
fn test_free_then_realloc_same_page() {
    let mut pmm = one_arena(4, 0);
    let a = pmm_alloc_page(&mut pmm, PMM_ALLOC_FLAG_ANY).unwrap();
    let b = alloc_page(&mut pmm).unwrap();
    assert_eq!(pmm_free_page(&mut pmm, a), RxStatus::OK);
    assert_eq!(pmm_count_free_pages(&pmm), 3);
    assert_eq!(alloc_page(&mut pmm), Ok(a));
    assert_ne!(a, b);
    free_page(&mut pmm, b);
    assert_eq!(pmm_count_free_pages(&pmm), 3);
}

#[test]
fn test_free_page_errors() {
    let mut pmm = one_arena(2, 0);
    assert_eq!(pmm_free_page(&mut pmm, 0x10_0001), RxStatus::ERR_INVALID_ARGS);
    assert_eq!(pmm_free_page(&mut pmm, 0x50_0000), RxStatus::ERR_INVALID_ARGS);
}

#[test]
fn test_zone_filters() {
    let mut pmm = Pmm::new();
    let k = ArenaInfo::new(b"kernel", ARENA_FLAG_KERNEL, 0, 0x10_0000, 4096);
    let u = ArenaInfo::new(b"user", ARENA_FLAG_USER, 0, 0x100_0000, 4096);
    assert_eq!(pmm_add_arena(&mut pmm, k), RxStatus::OK);
    assert_eq!(pmm_add_arena(&mut pmm, u), RxStatus::OK);
    assert_eq!(pmm_alloc_user_page(&mut pmm), Ok(0x100_0000));
    assert_eq!(pmm_alloc_user_page(&mut pmm), Err(RxStatus::ERR_NO_MEMORY));
    assert_eq!(pmm_alloc_kernel_page(&mut pmm), Ok(0x10_0000));
    assert_eq!(pmm_alloc_page(&mut pmm, PMM_ALLOC_FLAG_KERNEL), Err(RxStatus::ERR_NO_MEMORY));
    assert_eq!(pmm_alloc_page(&mut pmm, PMM_ALLOC_FLAG_USER), Err(RxStatus::ERR_NO_MEMORY));
}

#[test]
fn test_alloc_contiguous_first_run() {
    let mut pmm = one_arena(6, 0);
    assert_eq!(pmm_alloc_contiguous(&mut pmm, 0, PMM_ALLOC_FLAG_ANY, 0), Err(RxStatus::ERR_INVALID_ARGS));
    // take page 1 so the first run of three starts at page 2
    assert_eq!(pmm_alloc_page(&mut pmm, PMM_ALLOC_FLAG_ANY), Ok(0x10_0000));
    assert_eq!(pmm_alloc_page(&mut pmm, PMM_ALLOC_FLAG_ANY), Ok(0x10_1000));
    assert_eq!(pmm_free_page(&mut pmm, 0x10_0000), RxStatus::OK);
    assert_eq!(pmm_alloc_contiguous(&mut pmm, 3, PMM_ALLOC_FLAG_ANY, 0), Ok(0x10_2000));
    assert_eq!(pmm_alloc_contiguous(&mut pmm, 2, PMM_ALLOC_FLAG_ANY, 0), Err(RxStatus::ERR_NO_MEMORY));
    assert_eq!(pmm_alloc_contiguous(&mut pmm, 1, PMM_ALLOC_FLAG_ANY, 0), Ok(0x10_0000));
    assert_eq!(pmm_count_free_pages(&pmm), 1);
}

#[test]
fn test_free_contiguous_and_reserve() {
    let mut pmm = one_arena(4, 0);
    assert_eq!(pmm_alloc_contiguous(&mut pmm, 4, PMM_ALLOC_FLAG_ANY, 0), Ok(0x10_0000));
    assert_eq!(pmm_free_contiguous(&mut pmm, 0x10_1000, 0), RxStatus::ERR_INVALID_ARGS);
    assert_eq!(pmm_free_contiguous(&mut pmm, 0x10_1000, 8), RxStatus::ERR_INVALID_ARGS);
    assert_eq!(pmm_free_contiguous(&mut pmm, 0x10_1000, 2), RxStatus::OK);
    assert_eq!(pmm_count_free_pages(&pmm), 2);
    assert_eq!(pmm_reserve_pages(&mut pmm, 0x10_1000, 1), RxStatus::OK);
    assert_eq!(pmm_count_free_pages(&pmm), 1);
    let page = paddr_to_page(&pmm, 0x10_1000).unwrap();
    assert_eq!(page.state, PageState::Reserved);
    let page = paddr_to_page(&pmm, 0x10_2000).unwrap();
    assert_eq!(page.state, PageState::Free);
    assert_eq!(page.paddr, 0x10_2000);
    assert_eq!(page.arena_index, 0);
    assert_eq!(page.page_index, 2);
    assert!(paddr_to_page(&pmm, 0x20_0000).is_none());
}

#[test]
fn test_totals_and_init_early() {
    let mut pmm = Pmm::new();
    pmm_init_early(&mut pmm, 0x10_0000, 3 * 4096, Some(0x1_0000_0000), Some(2 * 4096));
    assert_eq!(pmm.arena_count(), 2);
    assert_eq!(pmm_count_total_pages(&pmm), 5);
    assert_eq!(pmm_count_total_bytes(&pmm), 5 * 4096);
    assert_eq!(pmm_alloc_page(&mut pmm, PMM_ALLOC_FLAG_LOW_MEM), Ok(0x10_0000));

    let mut only_low = Pmm::new();
    pmm_init_early(&mut only_low, 0x10_0000, 4096, Some(0x1_0000_0000), None);
    assert_eq!(only_low.arena_count(), 1);
}

#[test]
fn test_paddr_to_vaddr() {
    assert_eq!(paddr_to_vaddr(0x1000), 0x1000);
    assert_eq!(paddr_to_vaddr(0x8000_0000), 0xffff_8000_8000_0000);
    // User-zone memory is always reached through the direct map.
    assert_eq!(paddr_to_vaddr_user_zone(0x100_0000), 0xffff_8000_0100_0000);
    assert_eq!(paddr_to_vaddr_user_zone(0x1_0000_0000), 0xffff_8001_0000_0000);
}

#[test]
fn test_kernel_init_stages() {
    let mut pmm = Pmm::new();
    let mut boot = BootAllocator::new(BOOT_ALLOC_SIZE);
    let (state, free) = init_early(&mut pmm, &mut boot, 0x8000);
    assert_eq!(state, InitState::Early);
    assert_eq!(free, 32256);
    assert_eq!(pmm_alloc_kernel_page(&mut pmm), Ok(0x20_0000));
    assert_eq!(pmm_alloc_user_page(&mut pmm), Ok(0x100_0000));
    let mut heap = LinkedListAllocator::new();
    assert_eq!(init_memory(&mut pmm, &mut heap), InitState::VM);
    assert_eq!(pmm_count_free_pages(&pmm), 32256 - 2 - 256);
    assert_eq!(heap.size(), 0x10_0000);
    assert_eq!(heap.usage(), 0);
    assert_eq!(heap.available(), 0x10_0000);
    assert_eq!(heap.allocate(64, 16), 0x30_0000 + 48);
    assert_eq!(paddr_to_page(&pmm, 0x30_0000).unwrap().state, PageState::Reserved);
    assert_eq!(boot.allocate(16, 8), Some(0x8000));
}

#[test]
fn test_kernel_stack_takes_32_pages() {
    let mut pmm = one_arena(40, ARENA_FLAG_KERNEL);
    let ks = alloc_kernel_stack(&mut pmm).unwrap();
    assert_eq!(ks.pages.len(), STACK_PAGES);
    assert_eq!(ks.paddr, 0x10_0000);
    assert_eq!(ks.vaddr, 0x10_0000);
    assert_eq!(ks.size, 128 * 1024);
    assert_eq!(ks.pages[31], 0x10_0000 + 31 * 4096);
    assert_eq!(pmm_count_free_pages(&pmm), 8);
}

#[test]
fn test_kernel_stack_stops_when_out_of_pages() {
    let mut pmm = one_arena(3, ARENA_FLAG_KERNEL);
    let ks = alloc_kernel_stack(&mut pmm).unwrap();
    assert_eq!(ks.size, 3 * 4096);
    assert_eq!(pmm_count_free_pages(&pmm), 0);
    let mut user_only = one_arena(3, ARENA_FLAG_USER);
    assert!(alloc_kernel_stack(&mut user_only).is_none());
}
