//! ELF64 parsing and loading for x86_64 executables.
//!
//! An image is accepted when its header is a little-endian ELF64 x86_64
//! executable; each PT_LOAD segment becomes a VMO holding the segment's file
//! bytes followed by zeros up to its memory size.

use vstd::prelude::*;
use crate::bytes::{le16, le32, le64, read_u16_le, read_u32_le, read_u64_le};
use crate::object::ids::{IdAllocator, nth_id};
use crate::object::handle::lemma_nth_id_step;
use crate::object::vmo::{Vmo, VmoFlags, written, page_round_up};

verus! {

// ============================================================================
// ELF Constants
// ============================================================================

/// ELF magic number.
pub const ELF_MAGIC: [u8; 4] = [0x7f, 0x45, 0x4c, 0x46];

/// ELF class: 64-bit.
pub const ELFCLASS64: u8 = 2;

/// ELF data encoding: little-endian.
pub const ELFDATA2LSB: u8 = 1;

/// ELF version.
pub const EV_CURRENT: u8 = 1;

/// x86_64 machine architecture.
pub const EM_X86_64: u16 = 62;

/// ELF file type: executable.
pub const ET_EXEC: u16 = 2;

/// Program header type: loadable segment.
pub const PT_LOAD: u32 = 1;

/// Segment permission: execute.
pub const PF_X: u32 = 0x1;

/// Segment permission: write.
pub const PF_W: u32 = 0x2;

/// Segment permission: read.
pub const PF_R: u32 = 0x4;

/// Top of the user stack of a loaded program.
pub const USER_STACK_TOP: u64 = 0x7fff_ffff_f000;

/// Size of the user stack of a loaded program (8 MiB).
pub const USER_STACK_SIZE: u64 = 8388608;

// ============================================================================
// ELF File Structures
// ============================================================================

/// ELF identifier (first 16 bytes of an ELF file).
#[derive(Debug, Clone, Copy)]
pub struct ElfIdent {
    pub magic: [u8; 4],
    pub class_: u8,
    pub endianness: u8,
    pub version: u8,
    pub os_abi: u8,
    pub abi_version: u8,
    pub pad: [u8; 7],
}

/// ELF64 file header.
#[derive(Debug)]
pub struct ElfHeader {
    pub e_ident: [u8; 16],
    pub e_type: u16,
    pub e_machine: u16,
    pub e_version: u32,
    pub e_entry: u64,
    pub e_phoff: u64,
    pub e_shoff: u64,
    pub e_flags: u32,
    pub e_ehsize: u16,
    pub e_phentsize: u16,
    pub e_phnum: u16,
    pub e_shentsize: u16,
    pub e_shnum: u16,
    pub e_shstrndx: u16,
}

/// Program header: one segment description.
#[derive(Debug, Clone, Copy, PartialEq, Eq, Structural)]
pub struct ProgramHeader {
    pub p_type: u32,
    pub p_flags: u32,
    pub p_offset: u64,
    pub p_vaddr: u64,
    pub p_paddr: u64,
    pub p_filesz: u64,
    pub p_memsz: u64,
    pub p_align: u64,
}

/// A loaded segment: where it goes, its memory size, its VMO and flags.
pub struct LoadedSegment {
    pub vaddr: u64,
    pub size: u64,
    pub vmo: Box<Vmo>,
    pub flags: u32,
}

/// A loaded ELF binary.
pub struct LoadedElf {
    pub entry: u64,
    pub segments: Vec<LoadedSegment>,
    pub stack_addr: u64,
    pub stack_size: u64,
}

// ============================================================================
// Specifications
// ============================================================================

/// The first four bytes are the ELF magic.
pub open spec fn magic_ok(s: Seq<u8>) -> bool {
    s[0] == 0x7f && s[1] == 0x45 && s[2] == 0x4c && s[3] == 0x46
}

/// Why a byte image has no acceptable ELF header (`None` when it has one).
pub open spec fn header_error(s: Seq<u8>) -> Option<&'static str> {
    if s.len() < 64 {
        Some("ELF file too small")
    } else if !magic_ok(s) {
        Some("Invalid ELF magic (not an ELF file)")
    } else if s[4] != 2 {
        Some("Not a 64-bit ELF (class must be 2)")
    } else if s[5] != 1 {
        Some("Not little-endian (endianness must be 1)")
    } else {
        None
    }
}

/// `h` holds the header fields that `s` encodes.
pub open spec fn header_matches(s: Seq<u8>, h: ElfHeader) -> bool {
    &&& h.e_ident@ == seq![0x7fu8, 0x45u8, 0x4cu8, 0x46u8, s[4], s[5], s[6], s[7], s[8], 0u8, 0u8, 0u8, 0u8, 0u8, 0u8, 0u8]
    &&& h.e_type == le16(s, 16)
    &&& h.e_machine == le16(s, 18)
    &&& h.e_version == 1
    &&& h.e_entry == le64(s, 24)
    &&& h.e_phoff == le64(s, 32)
    &&& h.e_shoff == le64(s, 40)
    &&& h.e_flags == 0
    &&& h.e_ehsize == 64
    &&& h.e_phentsize == le16(s, 54)
    &&& h.e_phnum == le16(s, 56)
    &&& h.e_shentsize == 0
    &&& h.e_shnum == 0
    &&& h.e_shstrndx == 0
}

/// Why a header is not a loadable x86_64 executable (`None` when it is).
pub open spec fn validate_error(e_type: int, e_machine: int, e_phnum: int, e_phoff: int, e_phentsize: int) -> Option<&'static str> {
    if e_type != 2 {
        Some("Not an executable (wrong e_type)")
    } else if e_machine != 62 {
        Some("Not x86_64 (wrong e_machine)")
    } else if e_phnum == 0 {
        Some("No program headers")
    } else if e_phoff == 0 || e_phentsize < 56 {
        Some("Invalid program header table")
    } else {
        None
    }
}

/// The program header encoded at byte offset `off`.
pub open spec fn ph_at(s: Seq<u8>, off: int) -> ProgramHeader {
    ProgramHeader {
        p_type: le32(s, off) as u32,
        p_flags: le32(s, off + 4) as u32,
        p_offset: le64(s, off + 8) as u64,
        p_vaddr: le64(s, off + 16) as u64,
        p_paddr: le64(s, off + 24) as u64,
        p_filesz: le64(s, off + 32) as u64,
        p_memsz: le64(s, off + 40) as u64,
        p_align: le64(s, off + 48) as u64,
    }
}

/// Header `i` of the table lies inside the image.
pub open spec fn ph_fits(len: int, phoff: int, phentsize: int, i: int) -> bool {
    phoff + i * phentsize + phentsize <= len
}

/// The index of the first header, from `i` on, that is past the count or
/// does not fit.
pub open spec fn ph_count_from(len: int, phoff: int, phentsize: int, phnum: int, i: int) -> int
    decreases phnum - i,
{
    if i >= phnum || !ph_fits(len, phoff, phentsize, i) {
        i
    } else {
        ph_count_from(len, phoff, phentsize, phnum, i + 1)
    }
}

/// The program headers read from the image: those, in order, before the
/// first one that does not fit.
pub open spec fn program_headers(s: Seq<u8>, phoff: int, phentsize: int, phnum: int) -> Seq<ProgramHeader> {
    let n = ph_count_from(s.len() as int, phoff, phentsize, phnum, 0);
    Seq::new(n as nat, |i: int| ph_at(s, phoff + i * phentsize))
}

/// The loadable (PT_LOAD) headers, in order.
pub open spec fn load_headers(phs: Seq<ProgramHeader>) -> Seq<ProgramHeader> {
    phs.filter(|p: ProgramHeader| p.p_type == 1)
}

/// Memory size of a segment: its memory size, at least its file size.
pub open spec fn seg_mem_size(ph: ProgramHeader) -> int {
    if ph.p_memsz >= ph.p_filesz { ph.p_memsz as int } else { ph.p_filesz as int }
}

/// Why a loadable segment cannot be loaded from an image of `len` bytes.
pub open spec fn seg_error(len: int, ph: ProgramHeader) -> Option<&'static str> {
    if ph.p_filesz > 0 && ph.p_offset + ph.p_filesz > len {
        Some("Segment extends beyond file size")
    } else if seg_mem_size(ph) == 0 || seg_mem_size(ph) > usize::MAX - 8191 {
        Some("Failed to create VMO")
    } else {
        None
    }
}

/// The first segment error in `s`, front to back.
pub open spec fn first_seg_error(len: int, s: Seq<ProgramHeader>) -> Option<&'static str>
    decreases s.len(),
{
    if s.len() == 0 {
        None
    } else if seg_error(len, s[0]) is Some {
        seg_error(len, s[0])
    } else {
        first_seg_error(len, s.drop_first())
    }
}

/// How many segments of `s`, front to back, load before the first that
/// cannot.
pub open spec fn loaded_before_error(len: int, s: Seq<ProgramHeader>) -> nat
    decreases s.len(),
{
    if s.len() == 0 || seg_error(len, s[0]) is Some {
        0
    } else {
        1 + loaded_before_error(len, s.drop_first())
    }
}

/// The bytes a segment's VMO holds: its file bytes, then zeros up to its
/// memory size.
pub open spec fn segment_image(s: Seq<u8>, ph: ProgramHeader) -> Seq<u8> {
    let file = if ph.p_filesz > 0 {
        s.subrange(ph.p_offset as int, ph.p_offset + ph.p_filesz)
    } else {
        Seq::empty()
    };
    file + Seq::new((seg_mem_size(ph) - ph.p_filesz) as nat, |i: int| 0u8)
}

/// `seg` is the loaded form of header `ph` of image `s`.
pub open spec fn segment_loaded(s: Seq<u8>, ph: ProgramHeader, seg: LoadedSegment) -> bool {
    &&& seg.vaddr == ph.p_vaddr
    &&& seg.size == seg_mem_size(ph)
    &&& seg.flags == ph.p_flags
    &&& seg.vmo.size == page_round_up(page_round_up(seg_mem_size(ph)))
    &&& seg.vmo.flags.0 == 0
    &&& seg.vmo.content@ == segment_image(s, ph)
}

// ============================================================================
// ELF Parsing
// ============================================================================

/// Parse the ELF64 header at the start of `data`.
pub fn parse_elf_header(data: &[u8]) -> (r: Result<ElfHeader, &'static str>)
    ensures
        header_error(data@) matches Some(e) ==> r == Err::<ElfHeader, &'static str>(e),
        header_error(data@) is None ==> (r matches Ok(h) && header_matches(data@, h)),
{
    if data.len() < 64 {
        return Err("ELF file too small");
    }
    if data[0] != ELF_MAGIC[0] || data[1] != ELF_MAGIC[1] || data[2] != ELF_MAGIC[2] || data[3]
        != ELF_MAGIC[3] {
        return Err("Invalid ELF magic (not an ELF file)");
    }
    if data[4] != ELFCLASS64 {
        return Err("Not a 64-bit ELF (class must be 2)");
    }
    if data[5] != ELFDATA2LSB {
        return Err("Not little-endian (endianness must be 1)");
    }
    let e_type = read_u16_le(data, 16);
    let e_machine = read_u16_le(data, 18);
    let e_entry = read_u64_le(data, 24);
    let e_phoff = read_u64_le(data, 32);
    let e_shoff = read_u64_le(data, 40);
    let e_phentsize = read_u16_le(data, 54);
    let e_phnum = read_u16_le(data, 56);
    let e_ident: [u8; 16] = [
        0x7f,
        0x45,
        0x4c,
        0x46,
        data[4],
        data[5],
        data[6],
        data[7],
        data[8],
        0,
        0,
        0,
        0,
        0,
        0,
        0,
    ];
    let h = ElfHeader {
        e_ident,
        e_type,
        e_machine,
        e_version: 1,
        e_entry,
        e_phoff,
        e_shoff,
        e_flags: 0,
        e_ehsize: 64,
        e_phentsize,
        e_phnum,
        e_shentsize: 0,
        e_shnum: 0,
        e_shstrndx: 0,
    };
    proof {
        assert(h.e_ident@ =~= seq![0x7fu8, 0x45u8, 0x4cu8, 0x46u8, data@[4], data@[5], data@[6], data@[7], data@[8], 0u8, 0u8, 0u8, 0u8, 0u8, 0u8, 0u8]);
    }
    Ok(h)
}

/// Read the program header at byte offset `off`.
fn parse_program_header(data: &[u8], off: usize) -> (r: ProgramHeader)
    requires
        off + 56 <= data.len(),
    ensures
        r == ph_at(data@, off as int),
{
    ProgramHeader {
        p_type: read_u32_le(data, off),
        p_flags: read_u32_le(data, off + 4),
        p_offset: read_u64_le(data, off + 8),
        p_vaddr: read_u64_le(data, off + 16),
        p_paddr: read_u64_le(data, off + 24),
        p_filesz: read_u64_le(data, off + 32),
        p_memsz: read_u64_le(data, off + 40),
        p_align: read_u64_le(data, off + 48),
    }
}

/// Parse up to `phnum` program headers of `phentsize` bytes each, starting
/// at `phoff`; parsing stops at the first header that does not fit in the
/// image.
pub fn parse_program_headers(data: &[u8], phoff: u64, phentsize: u16, phnum: u16) -> (r: Vec<
    ProgramHeader,
>)
    requires
        phnum == 0 || phentsize >= 56 || phoff + phentsize > data@.len(),
    ensures
        r@ == program_headers(data@, phoff as int, phentsize as int, phnum as int),
{
    let len = data.len();
    let mut headers: Vec<ProgramHeader> = Vec::new();
    let mut i: u16 = 0;
    let mut offset: u128 = phoff as u128;
    let ghost n = ph_count_from(len as int, phoff as int, phentsize as int, phnum as int, 0);
    while i < phnum
        invariant
            len == data@.len(),
            i <= phnum,
            offset == phoff + i * phentsize,
            offset <= 0xFFFF_FFFF_FFFF_FFFFint + (i as int) * 0x10000,
            phnum == 0 || phentsize >= 56 || phoff + phentsize > data@.len(),
            forall|j: int| 0 <= j < i ==> ph_fits(len as int, phoff as int, phentsize as int, j),
            n == ph_count_from(len as int, phoff as int, phentsize as int, phnum as int, i as int),
            headers@ == Seq::new(i as nat, |j: int| ph_at(data@, phoff + j * phentsize)),
        ensures
            n == i,
            headers@ == Seq::new(i as nat, |j: int| ph_at(data@, phoff + j * phentsize)),
        decreases phnum - i,
    {
        if offset + phentsize as u128 > len as u128 {
            break;
        }
        proof {
            if phentsize < 56 {
                assert(i == 0) by {
                    if i > 0 {
                        assert(ph_fits(len as int, phoff as int, phentsize as int, 0));
                        assert(0 * phentsize == 0) by (nonlinear_arith);
                    }
                }
                assert(0 * phentsize == 0) by (nonlinear_arith);
            }
        }
        let off = offset as usize;
        let ph = parse_program_header(data, off);
        let ghost prev = headers@;
        headers.push(ph);
        proof {
            assert(headers@ =~= Seq::new((i + 1) as nat, |j: int| ph_at(data@, phoff + j * phentsize)));
            assert((i + 1) * phentsize == i * phentsize + phentsize) by (nonlinear_arith);
        }
        offset = offset + phentsize as u128;
        i = i + 1;
    }
    headers
}

// ============================================================================
// ELF Validation
// ============================================================================

/// Check that a parsed header describes a loadable x86_64 executable.
pub fn validate_elf_header(header: &ElfHeader) -> (r: Result<(), &'static str>)
    ensures
        validate_error(
            header.e_type as int,
            header.e_machine as int,
            header.e_phnum as int,
            header.e_phoff as int,
            header.e_phentsize as int,
        ) matches Some(e) ==> r == Err::<(), &'static str>(e),
        validate_error(
            header.e_type as int,
            header.e_machine as int,
            header.e_phnum as int,
            header.e_phoff as int,
            header.e_phentsize as int,
        ) is None ==> r is Ok,
{
    if header.e_type != ET_EXEC {
        return Err("Not an executable (wrong e_type)");
    }
    if header.e_machine != EM_X86_64 {
        return Err("Not x86_64 (wrong e_machine)");
    }
    if header.e_phnum == 0 {
        return Err("No program headers");
    }
    if header.e_phoff == 0 || header.e_phentsize < 56 {
        return Err("Invalid program header table");
    }
    Ok(())
}

// ============================================================================
// ELF Loading
// ============================================================================

/// VMO flags for a segment: segment permissions are applied when mapping,
/// so the VMO itself carries none.
fn elf_flags_to_vmo_flags(p_flags: u32) -> (r: VmoFlags)
    ensures
        r.0 == 0,
{
    VmoFlags::empty()
}

/// Writing `z` right at the end of content `c` appends it.
proof fn lemma_written_at_end(c: Seq<u8>, z: Seq<u8>)
    ensures
        written(c, c.len() as int, z) == c + z,
{
    assert(written(c, c.len() as int, z) =~= c + z);
}

/// Rounding an already page-aligned size up leaves it unchanged.
proof fn lemma_round_up_idempotent(x: int)
    requires
        x >= 0,
    ensures
        page_round_up(page_round_up(x)) == page_round_up(x),
{
    crate::object::vmo::lemma_page_round_up(x);
    let y = page_round_up(x);
    let k = y / 4096;
    assert(y == k * 4096) by (nonlinear_arith)
        requires
            y % 4096 == 0,
            k == y / 4096,
    ;
    assert((k * 4096 + 4095) / 4096 == k) by (nonlinear_arith)
        requires
            k >= 0,
    ;
}

/// Load one PT_LOAD segment into a fresh VMO.
fn load_segment(elf_data: &[u8], ph: ProgramHeader, ids: &mut IdAllocator) -> (r: Result<
    LoadedSegment,
    &'static str,
>)
    ensures
        seg_error(elf_data@.len() as int, ph) matches Some(e) ==> r == Err::<
            LoadedSegment,
            &'static str,
        >(e),
        seg_error(elf_data@.len() as int, ph) is None ==> (r matches Ok(seg) && segment_loaded(
            elf_data@,
            ph,
            seg,
        )),
        r is Err ==> *final(ids) == *old(ids),
        r matches Ok(seg) ==> seg.vmo.id == old(ids).next && final(ids).next == nth_id(old(ids).next, 1),
{
    let len = elf_data.len();
    if ph.p_filesz > 0 && ph.p_offset as u128 + ph.p_filesz as u128 > len as u128 {
        return Err("Segment extends beyond file size");
    }
    let mem_size: u64 = if ph.p_memsz >= ph.p_filesz {
        ph.p_memsz
    } else {
        ph.p_filesz
    };
    if mem_size == 0 || mem_size as u128 > (usize::MAX - 8191) as u128 {
        return Err("Failed to create VMO");
    }
    let y: u64 = mem_size + 0xFFF;
    assert(y & !0xFFFu64 == ((y / 4096u64) * 4096u64) as u64) by (bit_vector);
    let aligned_size: u64 = y & !0xFFF;
    proof {
        crate::object::vmo::lemma_page_round_up(mem_size as int);
        lemma_round_up_idempotent(mem_size as int);
    }
    let mut vmo = match Vmo::create(aligned_size as usize, elf_flags_to_vmo_flags(ph.p_flags), ids) {
        Ok(v) => v,
        Err(_) => {
            return Err("Failed to create VMO");
        },
    };
    let ghost file: Seq<u8> = if ph.p_filesz > 0 {
        elf_data@.subrange(ph.p_offset as int, ph.p_offset + ph.p_filesz)
    } else {
        Seq::empty()
    };
    if ph.p_filesz > 0 {
        let file_start = ph.p_offset as usize;
        let file_end = (ph.p_offset + ph.p_filesz) as usize;
        let segment_data = &elf_data[file_start..file_end];
        match vmo.write(0, segment_data) {
            Ok(_) => {},
            Err(_) => {
                return Err("Failed to write segment data to VMO");
            },
        }
        proof {
            assert(segment_data@.take(segment_data@.len() as int) =~= segment_data@);
            lemma_written_at_end(Seq::<u8>::empty(), segment_data@);
            assert(Seq::<u8>::empty() + segment_data@ =~= file);
        }
    }
    assert(vmo.content@ == file);
    if ph.p_memsz > ph.p_filesz {
        let bss_offset = ph.p_filesz as usize;
        let bss_size = (ph.p_memsz - ph.p_filesz) as usize;
        let mut zeros: Vec<u8> = Vec::new();
        let mut z: usize = 0;
        while z < 4096
            invariant
                z <= 4096,
                zeros@ == Seq::new(z as nat, |i: int| 0u8),
            decreases 4096 - z,
        {
            zeros.push(0u8);
            proof {
                assert(zeros@ =~= Seq::new((z + 1) as nat, |i: int| 0u8));
            }
            z = z + 1;
        }
        let mut bytes_written: usize = 0;
        while bytes_written < bss_size
            invariant
                bss_offset == ph.p_filesz,
                bss_size == ph.p_memsz - ph.p_filesz,
                bytes_written <= bss_size,
                zeros@ == Seq::new(4096, |i: int| 0u8),
                vmo.wf(),
                vmo.size == aligned_size,
                aligned_size >= ph.p_memsz,
                vmo.flags.0 == 0,
                vmo.content@ == file + Seq::new(bytes_written as nat, |i: int| 0u8),
                file.len() == ph.p_filesz,
                vmo.id == old(ids).next,
                ids.next == nth_id(old(ids).next, 1),
            decreases bss_size - bytes_written,
        {
            let to_write = if bss_size - bytes_written < 4096 {
                bss_size - bytes_written
            } else {
                4096
            };
            let chunk = &zeros.as_slice()[0..to_write];
            let ghost c0 = vmo.content@;
            match vmo.write(bss_offset + bytes_written, chunk) {
                Ok(_) => {},
                Err(_) => {
                    return Err("Failed to zero BSS");
                },
            }
            proof {
                assert(chunk@.take(chunk@.len() as int) =~= chunk@);
                lemma_written_at_end(c0, chunk@);
                assert(file + Seq::new((bytes_written + to_write) as nat, |i: int| 0u8) =~= c0 + chunk@);
            }
            bytes_written = bytes_written + to_write;
        }
    }
    proof {
        if ph.p_memsz <= ph.p_filesz {
            assert(file + Seq::new((seg_mem_size(ph) - ph.p_filesz) as nat, |i: int| 0u8) =~= file);
        }
    }
    Ok(LoadedSegment { vaddr: ph.p_vaddr, size: mem_size, vmo: Box::new(vmo), flags: ph.p_flags })
}

/// The program-header table fields of the header encoded in `s`.
pub open spec fn table_headers(s: Seq<u8>) -> Seq<ProgramHeader> {
    program_headers(s, le64(s, 32), le16(s, 54), le16(s, 56))
}

/// Why a header-valid image `s` is not a loadable executable.
pub open spec fn image_validate_error(s: Seq<u8>) -> Option<&'static str> {
    validate_error(le16(s, 16), le16(s, 18), le16(s, 56), le64(s, 32), le16(s, 54))
}

/// Load an ELF executable: parse and check its header, then load every
/// PT_LOAD segment into a fresh VMO (file bytes, then zeros up to the
/// segment's memory size).
pub fn load_elf(elf_data: &[u8], ids: &mut IdAllocator) -> (r: Result<LoadedElf, &'static str>)
    ensures
        header_error(elf_data@) matches Some(e) ==> r == Err::<LoadedElf, &'static str>(e),
        header_error(elf_data@) is None && image_validate_error(elf_data@) is Some ==> r
            == Err::<LoadedElf, &'static str>(image_validate_error(elf_data@)->0),
        header_error(elf_data@) is None && image_validate_error(elf_data@) is None && load_headers(
            table_headers(elf_data@),
        ).len() == 0 ==> r == Err::<LoadedElf, &'static str>("No LOAD segments found in ELF"),
        header_error(elf_data@) is None && image_validate_error(elf_data@) is None && load_headers(
            table_headers(elf_data@),
        ).len() > 0 && first_seg_error(
            elf_data@.len() as int,
            load_headers(table_headers(elf_data@)),
        ) is Some ==> r == Err::<LoadedElf, &'static str>(
            first_seg_error(elf_data@.len() as int, load_headers(table_headers(elf_data@)))->0,
        ),
        r is Ok <==> header_error(elf_data@) is None && image_validate_error(elf_data@) is None
            && load_headers(table_headers(elf_data@)).len() > 0 && first_seg_error(
            elf_data@.len() as int,
            load_headers(table_headers(elf_data@)),
        ) is None,
        r is Err && (header_error(elf_data@) is Some || image_validate_error(elf_data@) is Some
            || load_headers(table_headers(elf_data@)).len() == 0) ==> *final(ids) == *old(ids),
        r is Err && header_error(elf_data@) is None && image_validate_error(elf_data@) is None
            ==> final(ids).next == nth_id(
            old(ids).next,
            loaded_before_error(elf_data@.len() as int, load_headers(table_headers(elf_data@))) as int,
        ),
        r matches Ok(elf) ==> {
            let loads = load_headers(table_headers(elf_data@));
            &&& final(ids).next == nth_id(old(ids).next, loads.len() as int)
            &&& forall|i: int| 0 <= i < loads.len() ==> (#[trigger] elf.segments@[i]).vmo.id == nth_id(old(ids).next, i)
            &&& elf.entry == le64(elf_data@, 24)
            &&& elf.stack_addr == USER_STACK_TOP
            &&& elf.stack_size == USER_STACK_SIZE
            &&& elf.segments@.len() == loads.len()
            &&& forall|i: int|
                0 <= i < loads.len() ==> #[trigger] segment_loaded(
                    elf_data@,
                    loads[i],
                    elf.segments@[i],
                )
        },
{
    let header = match parse_elf_header(elf_data) {
        Ok(h) => h,
        Err(e) => {
            return Err(e);
        },
    };
    match validate_elf_header(&header) {
        Ok(()) => {},
        Err(e) => {
            return Err(e);
        },
    }
    let prog_headers = parse_program_headers(
        elf_data,
        header.e_phoff,
        header.e_phentsize,
        header.e_phnum,
    );
    let ghost phs = prog_headers@;
    let mut load_segments: Vec<ProgramHeader> = Vec::new();
    let mut i: usize = 0;
    while i < prog_headers.len()
        invariant
            phs == prog_headers@,
            phs == table_headers(elf_data@),
            header_error(elf_data@) is None,
            image_validate_error(elf_data@) is None,
            i <= phs.len(),
            load_segments@ == load_headers(phs.take(i as int)),
        decreases phs.len() - i,
    {
        let ph = prog_headers[i];
        proof {
            reveal(Seq::filter);
            assert(phs.take(i as int + 1).drop_last() =~= phs.take(i as int));
        }
        if ph.p_type == PT_LOAD {
            load_segments.push(ph);
        }
        i = i + 1;
    }
    proof {
        assert(phs.take(phs.len() as int) =~= phs);
    }
    let ghost loads = load_segments@;
    if load_segments.len() == 0 {
        return Err("No LOAD segments found in ELF");
    }
    let mut segments: Vec<LoadedSegment> = Vec::new();
    let mut k: usize = 0;
    proof {
        assert(loads.skip(0) =~= loads);
    }
    proof {
        assert(nth_id(old(ids).next, 0) == old(ids).next);
    }
    while k < load_segments.len()
        invariant
            loads == load_segments@,
            loads == load_headers(table_headers(elf_data@)),
            loads.len() > 0,
            header_error(elf_data@) is None,
            image_validate_error(elf_data@) is None,
            header.e_entry == le64(elf_data@, 24),
            k <= loads.len(),
            segments@.len() == k,
            forall|j: int| 0 <= j < k ==> #[trigger] segment_loaded(elf_data@, loads[j], segments@[j]),
            forall|j: int| 0 <= j < k ==> seg_error(elf_data@.len() as int, #[trigger] loads[j]) is None,
            first_seg_error(elf_data@.len() as int, loads) == first_seg_error(
                elf_data@.len() as int,
                loads.skip(k as int),
            ),
            ids.next == nth_id(old(ids).next, k as int),
            forall|j: int| 0 <= j < k ==> (#[trigger] segments@[j]).vmo.id == nth_id(old(ids).next, j),
            loaded_before_error(elf_data@.len() as int, loads) == k + loaded_before_error(
                elf_data@.len() as int,
                loads.skip(k as int),
            ),
        decreases loads.len() - k,
    {
        proof {
            assert(loads.skip(k as int)[0] == loads[k as int]);
            assert(loads.skip(k as int).drop_first() =~= loads.skip(k as int + 1));
        }
        let ghost ids_before = ids.next;
        match load_segment(elf_data, load_segments[k], ids) {
            Ok(seg) => {
                proof {
                    lemma_nth_id_step(old(ids).next, k as int);
                }
                segments.push(seg);
            },
            Err(e) => {
                return Err(e);
            },
        }
        k = k + 1;
    }
    proof {
        assert(loads.skip(loads.len() as int).len() == 0);
    }
    Ok(LoadedElf {
        entry: header.e_entry,
        segments,
        stack_addr: USER_STACK_TOP,
        stack_size: USER_STACK_SIZE,
    })
}

/// Check whether `data` starts with the ELF magic.
pub fn is_elf_file(data: &[u8]) -> (r: bool)
    ensures
        r == (data@.len() >= 4 && magic_ok(data@)),
{
    if data.len() < 4 {
        return false;
    }
    data[0] == ELF_MAGIC[0] && data[1] == ELF_MAGIC[1] && data[2] == ELF_MAGIC[2] && data[3]
        == ELF_MAGIC[3]
}

} // verus!
