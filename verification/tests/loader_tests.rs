use rustux::exec::process_loader::{
    alloc_page_table_for_kernel, map_vmo_into_kernel_table, pd_index, pdp_index, pml4_index,
    load_elf_process, pt_index, PageWalk, VmoMapping, VmoPage, WalkAction,
};
use rustux::object::ids::IdAllocator;
use rustux::mm::pmm::{pmm_add_arena, ArenaInfo, Pmm, ARENA_FLAG_KERNEL};
use rustux::arch::amd64::mm::page_tables::RxStatus;

#[test]
fn test_table_indices() {
    let va: usize = 0xffff_8000_1234_5000;
    assert_eq!(pml4_index(va), 256);
    assert_eq!(pdp_index(va), 0);
    assert_eq!(pd_index(va), 0x91);
    assert_eq!(pt_index(va), 0x145);
}

#[test]
fn test_page_walk_existing_and_new_tables() {
    let mut w = PageWalk::new(0x1000, 0x0040_2000, 0x9000, 0x2);
    assert_eq!(w.index(), 0);
    assert_eq!(w.first_action(), WalkAction::ReadEntry { table: 0x1000, index: 0 });
    // root entry present: go down to the PDP table at 0x2000
    assert_eq!(w.on_entry(0x2003), WalkAction::ReadEntry { table: 0x2000, index: 0 });
    // PDP entry absent: a new table is needed
    assert_eq!(w.on_entry(0), WalkAction::AllocateTable);
    assert_eq!(
        w.on_new_table(0x5000),
        WalkAction::WriteEntry { table: 0x2000, index: 0, value: 0x5003 }
    );
    assert_eq!(w.first_action(), WalkAction::ReadEntry { table: 0x5000, index: 2 });
    // PD entry present: the last action writes the mapping
    assert_eq!(
        w.on_entry(0x6007),
        WalkAction::WriteEntry { table: 0x6000, index: 2, value: 0x9007 }
    );
}

#[test]
fn test_read_only_leaf_entry() {
    let mut w = PageWalk::new(0x1000, 0x3000, 0x7000, 0x4);
    w.level = 3;
    assert_eq!(w.first_action(), WalkAction::WriteEntry { table: 0x1000, index: 3, value: 0x7005 });
}

#[test]
fn test_alloc_page_table_for_kernel() {
    let mut pmm = Pmm::new();
    assert_eq!(alloc_page_table_for_kernel(&mut pmm), Err("Failed to allocate page table"));
    let info = ArenaInfo::new(b"kernel", ARENA_FLAG_KERNEL, 0, 0x20_0000, 4096);
    assert_eq!(pmm_add_arena(&mut pmm, info), RxStatus::OK);
    assert_eq!(alloc_page_table_for_kernel(&mut pmm), Ok(0x20_0000));
    assert_eq!(alloc_page_table_for_kernel(&mut pmm), Err("Failed to allocate page table"));
}

#[test]
fn test_map_vmo_plan() {
    let pages = [
        VmoPage { offset: 4096, paddr: 0xB000, present: true },
        VmoPage { offset: 0, paddr: 0xA000, present: true },
        VmoPage { offset: 8192, paddr: 0xC000, present: false },
    ];
    let (plan, err) = map_vmo_into_kernel_table(&pages, 0x40_0000, 8000);
    assert_eq!(plan, vec![(0x40_0000, 0xA000), (0x40_1000, 0xB000)]);
    assert_eq!(err, None);
    let (plan, err) = map_vmo_into_kernel_table(&pages, 0x40_0000, 8193);
    assert_eq!(plan.len(), 2);
    assert_eq!(err, Some("VMO page not present"));
    let (plan, err) = map_vmo_into_kernel_table(&pages[..1], 0x40_0000, 10);
    assert!(plan.is_empty());
    assert_eq!(err, Some("VMO page not present"));
}

fn put_bytes(buf: &mut Vec<u8>, off: usize, bytes: &[u8]) {
    if buf.len() < off + bytes.len() {
        buf.resize(off + bytes.len(), 0);
    }
    buf[off..off + bytes.len()].copy_from_slice(bytes);
}

/// An executable with one LOAD segment (4 file bytes, 10 in memory).
fn one_segment_image() -> Vec<u8> {
    let mut img = vec![0u8; 64];
    put_bytes(&mut img, 0, &[0x7f, b'E', b'L', b'F', 2, 1, 1, 0, 0]);
    put_bytes(&mut img, 16, &2u16.to_le_bytes());
    put_bytes(&mut img, 18, &62u16.to_le_bytes());
    put_bytes(&mut img, 20, &1u32.to_le_bytes());
    put_bytes(&mut img, 24, &0x401000u64.to_le_bytes());
    put_bytes(&mut img, 32, &64u64.to_le_bytes());
    put_bytes(&mut img, 54, &56u16.to_le_bytes());
    put_bytes(&mut img, 56, &1u16.to_le_bytes());
    let mut ph = Vec::new();
    ph.extend_from_slice(&1u32.to_le_bytes());
    ph.extend_from_slice(&5u32.to_le_bytes());
    ph.extend_from_slice(&120u64.to_le_bytes());
    ph.extend_from_slice(&0x401000u64.to_le_bytes());
    ph.extend_from_slice(&0x401000u64.to_le_bytes());
    ph.extend_from_slice(&4u64.to_le_bytes());
    ph.extend_from_slice(&10u64.to_le_bytes());
    ph.extend_from_slice(&0x1000u64.to_le_bytes());
    put_bytes(&mut img, 64, &ph);
    put_bytes(&mut img, 120, &[0xAA, 0xBB, 0xCC, 0xDD]);
    img
}

#[test]
fn test_load_elf_process_maps_segments_and_stack() {
    let img = one_segment_image();
    let mut ids = IdAllocator::new(1);
    let p = load_elf_process(&img, &mut ids).unwrap();
    assert_eq!(p.entry, 0x401000);
    assert_eq!(p.stack_top, 0x7fff_ffff_f000);
    assert_eq!(p.stack_size, 8 * 1024 * 1024);
    assert_eq!(p.segments.len(), 1);
    assert_eq!(p.address_space.len(), 2);
    assert_eq!(
        p.address_space[0],
        VmoMapping { vmo: p.segments[0].vmo.id, vaddr: 0x401000, size: 10, flags: 5 }
    );
    assert_eq!(
        p.address_space[1],
        VmoMapping {
            vmo: p.stack_vmo.id,
            vaddr: 0x7fff_ffff_f000 - 8 * 1024 * 1024,
            size: 8 * 1024 * 1024,
            flags: 6
        }
    );
    assert_eq!(p.stack_vmo.size(), 8 * 1024 * 1024);
    let mut buf = [0xFFu8; 8];
    assert_eq!(p.stack_vmo.read(8 * 1024 * 1024 - 8, &mut buf), Ok(8));
    assert_eq!(buf, [0u8; 8]);
}

#[test]
fn test_load_elf_process_rejects_non_elf() {
    let mut ids = IdAllocator::new(1);
    assert_eq!(load_elf_process(b"#!/bin/sh", &mut ids).err(), Some("ELF file too small"));
    let mut img = one_segment_image();
    img[0] = 0;
    assert_eq!(load_elf_process(&img, &mut ids).err(), Some("Invalid ELF magic (not an ELF file)"));
}
