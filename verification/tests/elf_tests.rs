use rustux::exec::elf::{ELF_MAGIC, ELFCLASS64, ELFDATA2LSB, EM_X86_64, ET_EXEC, PT_LOAD, PF_R, PF_X, ElfIdent, ElfHeader, ProgramHeader, is_elf_file, parse_elf_header, validate_elf_header, parse_program_headers, load_elf};
use rustux::object::ids::IdAllocator;

#[test]
fn test_elf_magic() {
    assert_eq!(ELF_MAGIC, [0x7f, b'E', b'L', b'F']);
}

#[test]
fn test_elf_constants() {
    assert_eq!(ELFCLASS64, 2);
    assert_eq!(ELFDATA2LSB, 1);
    assert_eq!(EM_X86_64, 62);
    assert_eq!(ET_EXEC, 2);
    assert_eq!(PT_LOAD, 1);
}

#[test]
fn test_ident_size() {
    assert_eq!(core::mem::size_of::<ElfIdent>(), 16);
}

#[test]
fn test_header_size() {
    assert_eq!(core::mem::size_of::<ElfHeader>(), 64);
}

#[test]
fn test_program_header_size() {
    assert_eq!(core::mem::size_of::<ProgramHeader>(), 56);
}

#[test]
fn test_is_elf_file() {
    let elf_data = [
        0x7F, b'E', b'L', b'F', 0x02, 0x01, 0x01, 0x00,
        0x3E, 0x00,
    ];
    assert!(is_elf_file(&elf_data));

    assert!(!is_elf_file(b"#!/bin/bash"));
    assert!(!is_elf_file(b"Plain text"));
}

fn put(buf: &mut Vec<u8>, off: usize, bytes: &[u8]) {
    if buf.len() < off + bytes.len() {
        buf.resize(off + bytes.len(), 0);
    }
    buf[off..off + bytes.len()].copy_from_slice(bytes);
}

/// A small executable: header, two program headers (one LOAD with a BSS
/// tail, one NOTE), and the segment bytes.
fn sample_image() -> Vec<u8> {
    let mut img = vec![0u8; 64];
    put(&mut img, 0, &[0x7f, b'E', b'L', b'F', 2, 1, 1, 0, 0]);
    put(&mut img, 16, &2u16.to_le_bytes());
    put(&mut img, 18, &62u16.to_le_bytes());
    put(&mut img, 20, &1u32.to_le_bytes());
    put(&mut img, 24, &0x401000u64.to_le_bytes());
    put(&mut img, 32, &64u64.to_le_bytes());
    put(&mut img, 54, &56u16.to_le_bytes());
    put(&mut img, 56, &2u16.to_le_bytes());
    let ph = |t: u32, flags: u32, off: u64, vaddr: u64, filesz: u64, memsz: u64| {
        let mut v = Vec::new();
        v.extend_from_slice(&t.to_le_bytes());
        v.extend_from_slice(&flags.to_le_bytes());
        v.extend_from_slice(&off.to_le_bytes());
        v.extend_from_slice(&vaddr.to_le_bytes());
        v.extend_from_slice(&vaddr.to_le_bytes());
        v.extend_from_slice(&filesz.to_le_bytes());
        v.extend_from_slice(&memsz.to_le_bytes());
        v.extend_from_slice(&0x1000u64.to_le_bytes());
        v
    };
    put(&mut img, 64, &ph(PT_LOAD, PF_R | PF_X, 176, 0x401000, 4, 10));
    put(&mut img, 120, &ph(4, PF_R, 0, 0, 0, 0));
    put(&mut img, 176, &[0xAA, 0xBB, 0xCC, 0xDD]);
    img
}

#[test]
fn parse_and_validate_sample() {
    let img = sample_image();
    let h = parse_elf_header(&img).unwrap();
    assert_eq!(h.e_type, ET_EXEC);
    assert_eq!(h.e_machine, EM_X86_64);
    assert_eq!(h.e_phnum, 2);
    assert_eq!(h.e_entry, 0x401000);
    assert!(validate_elf_header(&h).is_ok());
    let phs = parse_program_headers(&img, h.e_phoff, h.e_phentsize, h.e_phnum);
    assert_eq!(phs.len(), 2);
    assert_eq!(phs[0].p_filesz, 4);
    assert_eq!(phs[0].p_memsz, 10);
    assert_eq!(phs[1].p_type, 4);
    let short = parse_program_headers(&img[..150], h.e_phoff, h.e_phentsize, h.e_phnum);
    assert_eq!(short.len(), 1);
}

#[test]
fn header_errors_in_order() {
    assert_eq!(parse_elf_header(&[0u8; 10]).err(), Some("ELF file too small"));
    let mut img = sample_image();
    img[0] = 0;
    assert_eq!(parse_elf_header(&img).err(), Some("Invalid ELF magic (not an ELF file)"));
    let mut img = sample_image();
    img[4] = 1;
    assert_eq!(parse_elf_header(&img).err(), Some("Not a 64-bit ELF (class must be 2)"));
    let mut img = sample_image();
    img[5] = 2;
    assert_eq!(parse_elf_header(&img).err(), Some("Not little-endian (endianness must be 1)"));
    let mut img = sample_image();
    img[16] = 1;
    let h = parse_elf_header(&img).unwrap();
    assert_eq!(validate_elf_header(&h), Err("Not an executable (wrong e_type)"));
    let mut img = sample_image();
    img[18] = 3;
    let h = parse_elf_header(&img).unwrap();
    assert_eq!(validate_elf_header(&h), Err("Not x86_64 (wrong e_machine)"));
}

#[test]
fn load_sample_segments() {
    let img = sample_image();
    let mut ids = IdAllocator::new(1);
    let elf = load_elf(&img, &mut ids).unwrap();
    assert_eq!(elf.entry, 0x401000);
    assert_eq!(elf.stack_addr, 0x7fff_ffff_f000);
    assert_eq!(elf.stack_size, 8 * 1024 * 1024);
    assert_eq!(elf.segments.len(), 1);
    let seg = &elf.segments[0];
    assert_eq!(seg.vaddr, 0x401000);
    assert_eq!(seg.size, 10);
    assert_eq!(seg.flags, PF_R | PF_X);
    assert_eq!(seg.vmo.size(), 4096);
    let mut buf = [0xFFu8; 16];
    assert_eq!(seg.vmo.read(0, &mut buf), Ok(10));
    assert_eq!(&buf[..10], &[0xAA, 0xBB, 0xCC, 0xDD, 0, 0, 0, 0, 0, 0]);
}

#[test]
fn load_errors() {
    let mut ids = IdAllocator::new(1);
    let mut img = sample_image();
    img.truncate(178);
    assert_eq!(load_elf(&img, &mut ids).err(), Some("Segment extends beyond file size"));
    let mut img = sample_image();
    put(&mut img, 64, &4u32.to_le_bytes());
    assert_eq!(load_elf(&img, &mut ids).err(), Some("No LOAD segments found in ELF"));
}

/// A minimal valid ELF64 executable header, exactly 64 bytes, with entry
/// point 0x1_0000_0000 encoded little-endian (byte 28 holds the 1).
fn minimal_header() -> [u8; 64] {
    [
        0x7F, b'E', b'L', b'F', 2, 1, 1, 0, 0, // e_ident
        0, 0, 0, 0, 0, 0, 0, // pad
        0x02, 0x00, // e_type: ET_EXEC
        0x3E, 0x00, // e_machine: EM_X86_64
        0x01, 0x00, 0x00, 0x00, // e_version
        0x00, 0x00, 0x00, 0x00, 0x01, 0x00, 0x00, 0x00, // e_entry
        0x40, 0x00, 0x00, 0x00, 0x00, 0x00, 0x00, 0x00, // e_phoff
        0x00, 0x00, 0x00, 0x00, 0x00, 0x00, 0x00, 0x00, // e_shoff
        0x00, 0x00, 0x00, 0x00, // e_flags
        0x40, 0x00, // e_ehsize
        0x38, 0x00, // e_phentsize
        0x02, 0x00, // e_phnum
        0x00, 0x00, // e_shentsize
        0x00, 0x00, // e_shnum
        0x00, 0x00, // e_shstrndx
    ]
}

#[test]
fn test_simple_64bit_elf() {
    let data = minimal_header();
    let result = parse_elf_header(&data);
    assert!(result.is_ok(), "Failed to parse ELF header: {:?}", result);
    let header = result.unwrap();
    assert_eq!(header.e_type, ET_EXEC);
    assert_eq!(header.e_machine, EM_X86_64);
    assert_eq!(header.e_phnum, 2);
    assert_eq!(header.e_entry, 0x100000000);
}

/// A well-formed executable header passes validation; a wrong type or
/// machine is refused.
#[test]
fn test_validate_executable() {
    let data = minimal_header();
    let header = parse_elf_header(&data).unwrap();
    assert!(validate_elf_header(&header).is_ok());

    let mut bad_data = data;
    bad_data[0x10] = 0x01; // e_type = 1 (relocatable)
    let header = parse_elf_header(&bad_data).unwrap();
    assert!(validate_elf_header(&header).is_err());

    let mut bad_data = data;
    bad_data[0x12] = 0x03; // e_machine = 3 (x86)
    let header = parse_elf_header(&bad_data).unwrap();
    assert!(validate_elf_header(&header).is_err());
}
