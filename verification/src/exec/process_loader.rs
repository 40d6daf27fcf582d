//! Mapping the pages of a loaded program into x86_64 page tables.
//!
//! A mapping walks the four levels of tables from the root, creating the
//! missing intermediate tables. The tables live in physical memory, which
//! the caller reads and writes: [`PageWalk`] says, one step at a time,
//! which entry to read, when a new table is needed and which entry to
//! write.

use vstd::prelude::*;
use crate::mm::pmm::{Pmm, pmm_alloc_kernel_page, page_alloc_outcome, PMM_ALLOC_FLAG_KERNEL};
use crate::arch::amd64::mm::page_tables::{PAddr, RxStatus};
use crate::bytes::le64;
use crate::exec::elf::{
    first_seg_error, header_error, image_validate_error, load_elf, load_headers, loaded_before_error,
    segment_loaded, table_headers, LoadedSegment, USER_STACK_SIZE, USER_STACK_TOP,
};
use crate::object::handle::lemma_nth_id_step;
use crate::object::ids::{IdAllocator, nth_id};
use crate::object::vmo::{lemma_page_round_up, page_round_up, written, Vmo, VmoFlags, VmoId};

verus! {

/// Page size.
pub const PAGE_SIZE: usize = 4096;

proof fn lemma_index_bound(v: u64, s: u64)
    ensures
        (v >> s) & 0x1FF < 512,
{
    assert((v >> s) & 0x1FF < 512) by (bit_vector);
}

/// Index into the level-4 table.
pub fn pml4_index(vaddr: usize) -> (r: usize)
    ensures
        r == ((vaddr as u64) >> 39u64) & 0x1FF,
{
    proof {
        lemma_index_bound(vaddr as u64, 39u64);
    }
    (((vaddr as u64) >> 39u64) & 0x1FF) as usize
}

/// Index into the page-directory-pointer table.
pub fn pdp_index(vaddr: usize) -> (r: usize)
    ensures
        r == ((vaddr as u64) >> 30u64) & 0x1FF,
{
    proof {
        lemma_index_bound(vaddr as u64, 30u64);
    }
    (((vaddr as u64) >> 30u64) & 0x1FF) as usize
}

/// Index into the page directory.
pub fn pd_index(vaddr: usize) -> (r: usize)
    ensures
        r == ((vaddr as u64) >> 21u64) & 0x1FF,
{
    proof {
        lemma_index_bound(vaddr as u64, 21u64);
    }
    (((vaddr as u64) >> 21u64) & 0x1FF) as usize
}

/// Index into the page table.
pub fn pt_index(vaddr: usize) -> (r: usize)
    ensures
        r == ((vaddr as u64) >> 12u64) & 0x1FF,
{
    proof {
        lemma_index_bound(vaddr as u64, 12u64);
    }
    (((vaddr as u64) >> 12u64) & 0x1FF) as usize
}

/// Index of `vaddr` into the table at `level` (0 for the root, 3 for the
/// page table).
pub open spec fn level_index(vaddr: u64, level: int) -> u64 {
    (vaddr >> ((39 - 9 * level) as u64)) & 0x1FF
}

/// Take a kernel-zone page for a new page table; the caller zeroes it.
pub fn alloc_page_table_for_kernel(pmm: &mut Pmm) -> (r: Result<PAddr, &'static str>)
    requires
        old(pmm).wf(),
    ensures
        final(pmm).wf(),
        ({
            let out = match r {
                Ok(p) => Ok::<PAddr, RxStatus>(p),
                Err(_) => Err::<PAddr, RxStatus>(RxStatus::ERR_NO_MEMORY),
            };
            page_alloc_outcome(old(pmm).arenas(), final(pmm).arenas(), PMM_ALLOC_FLAG_KERNEL, out)
        }),
        r is Err ==> r == Err::<PAddr, &'static str>("Failed to allocate page table"),
{
    match pmm_alloc_kernel_page(pmm) {
        Ok(p) => Ok(p),
        Err(_) => Err("Failed to allocate page table"),
    }
}

/// The page table entry mapping `paddr`: present, user-accessible, and
/// writable when `flags` has the ELF write bit.
pub open spec fn leaf_entry(paddr: u64, flags: u32) -> u64 {
    if flags & 2 != 0 {
        paddr | 1 | 2 | 4
    } else {
        paddr | 1 | 4
    }
}

/// Law: the leaf entry is always present (bit 0) and user-accessible
/// (bit 2), keeps the page address in its high bits, and, for a
/// page-aligned address, is writable (bit 1) exactly when the ELF flags
/// hold the write bit (PF_W = 2), whatever other flag bits are set.
pub proof fn lemma_leaf_entry_bits(paddr: u64, flags: u32)
    ensures
        leaf_entry(paddr, flags) & 1 != 0,
        leaf_entry(paddr, flags) & 4 != 0,
        leaf_entry(paddr, flags) & !0xFFFu64 == paddr & !0xFFFu64,
        paddr & 0xFFF == 0 ==> (leaf_entry(paddr, flags) & 2 != 0 <==> flags & 2 != 0),
        flags & 2 != 0 ==> leaf_entry(paddr, flags) & 2 != 0,
{
    let v = leaf_entry(paddr, flags);
    if flags & 2 != 0 {
        assert(v == paddr | 1 | 2 | 4);
        assert((paddr | 1 | 2 | 4) & 1 != 0 && (paddr | 1 | 2 | 4) & 4 != 0 && (paddr | 1 | 2 | 4) & 2 != 0
            && (paddr | 1 | 2 | 4) & !0xFFFu64 == paddr & !0xFFFu64) by (bit_vector);
    } else {
        assert(v == paddr | 1 | 4);
        assert((paddr | 1 | 4) & 1 != 0 && (paddr | 1 | 4) & 4 != 0 && (paddr | 1 | 4) & !0xFFFu64 == paddr
            & !0xFFFu64) by (bit_vector);
        assert(paddr & 0xFFF == 0 ==> (paddr | 1 | 4) & 2 == 0) by (bit_vector);
    }
}

/// The entry pointing at a new intermediate table: present and writable.
pub open spec fn table_entry(table: u64) -> u64 {
    table | 3
}

/// What the caller does next for a page walk.
#[derive(Debug, Clone, Copy, PartialEq, Eq, Structural)]
pub enum WalkAction {
    /// Read entry `index` of the table at `table` and report it.
    ReadEntry { table: u64, index: usize },
    /// Take a zeroed page for a new table and report its address.
    AllocateTable,
    /// Write `value` to entry `index` of the table at `table`.
    WriteEntry { table: u64, index: usize, value: u64 },
}

/// A walk that maps `paddr` at `vaddr` with `flags`, standing at table
/// `table` of `level` (0 for the root, 3 for the page table).
#[derive(Debug, Clone, Copy, PartialEq, Eq, Structural)]
pub struct PageWalk {
    pub vaddr: u64,
    pub paddr: u64,
    pub flags: u32,
    pub level: u8,
    pub table: u64,
}

impl PageWalk {
    /// A walk from the root table `pml4`.
    pub fn new(pml4: u64, vaddr: u64, paddr: u64, flags: u32) -> (w: PageWalk)
        ensures
            w == (PageWalk { vaddr, paddr, flags, level: 0, table: pml4 }),
    {
        PageWalk { vaddr, paddr, flags, level: 0, table: pml4 }
    }

    /// Index into the current table.
    pub fn index(&self) -> (r: usize)
        requires
            self.level <= 3,
        ensures
            r == level_index(self.vaddr, self.level as int),
            r < 512,
    {
        let shift: u64 = 39 - 9 * (self.level as u64);
        let v = self.vaddr;
        proof {
            lemma_index_bound(v, shift);
        }
        ((v >> shift) & 0x1FF) as usize
    }

    /// The first action: at the page table, write the mapping; above it,
    /// read the entry that leads down.
    pub fn first_action(&self) -> (a: WalkAction)
        requires
            self.level <= 3,
        ensures
            self.level == 3 ==> a == (WalkAction::WriteEntry {
                table: self.table,
                index: level_index(self.vaddr, 3) as usize,
                value: leaf_entry(self.paddr, self.flags),
            }),
            self.level < 3 ==> a == (WalkAction::ReadEntry {
                table: self.table,
                index: level_index(self.vaddr, self.level as int) as usize,
            }),
            a matches WalkAction::WriteEntry { value, .. } ==> {
                &&& value & 1 != 0 && value & 4 != 0
                &&& value & !0xFFFu64 == self.paddr & !0xFFFu64
                &&& self.paddr & 0xFFF == 0 ==> (value & 2 != 0 <==> self.flags & 2 != 0)
            },
    {
        proof {
            lemma_leaf_entry_bits(self.paddr, self.flags);
        }
        if self.level == 3 {
            let value = if self.flags & 2 != 0 {
                self.paddr | 1 | 2 | 4
            } else {
                self.paddr | 1 | 4
            };
            WalkAction::WriteEntry { table: self.table, index: self.index(), value }
        } else {
            WalkAction::ReadEntry { table: self.table, index: self.index() }
        }
    }

    /// The entry read at the current level (0 to 2): a present entry leads
    /// to the table it points at (the low 12 bits masked off) and the walk
    /// goes on there; an absent one asks for a new table.
    pub fn on_entry(&mut self, entry: u64) -> (a: WalkAction)
        requires
            old(self).level < 3,
        ensures
            entry & 1 == 0 ==> a == WalkAction::AllocateTable && *final(self) == *old(self),
            entry & 1 != 0 ==> {
                &&& *final(self) == (PageWalk {
                    level: (old(self).level + 1) as u8,
                    table: entry & !0xFFFu64,
                    ..*old(self)
                })
                &&& final(self).level == 3 ==> a == (WalkAction::WriteEntry {
                    table: final(self).table,
                    index: level_index(final(self).vaddr, 3) as usize,
                    value: leaf_entry(final(self).paddr, final(self).flags),
                })
                &&& final(self).level < 3 ==> a == (WalkAction::ReadEntry {
                    table: final(self).table,
                    index: level_index(final(self).vaddr, final(self).level as int) as usize,
                })
            },
    {
        if entry & 1 == 0 {
            return WalkAction::AllocateTable;
        }
        self.level = self.level + 1;
        self.table = entry & !0xFFFu64;
        self.first_action()
    }

    /// A new table at `new_table` for the current level (0 to 2): link it
    /// in with a present, writable entry; the walk goes on in it, where the
    /// next action is `first_action`.
    pub fn on_new_table(&mut self, new_table: u64) -> (a: WalkAction)
        requires
            old(self).level < 3,
        ensures
            a == (WalkAction::WriteEntry {
                table: old(self).table,
                index: level_index(old(self).vaddr, old(self).level as int) as usize,
                value: table_entry(new_table),
            }),
            *final(self) == (PageWalk {
                level: (old(self).level + 1) as u8,
                table: new_table,
                ..*old(self)
            }),
    {
        let index = self.index();
        let table = self.table;
        self.level = self.level + 1;
        self.table = new_table;
        WalkAction::WriteEntry { table, index, value: new_table | 3 }
    }
}

/// One page of a VMO: the offset it backs and where it lives.
#[derive(Debug, Clone, Copy, PartialEq, Eq, Structural)]
pub struct VmoPage {
    pub offset: usize,
    pub paddr: u64,
    pub present: bool,
}

/// The first page recorded for `offset`, if any.
pub open spec fn page_for(pages: Seq<VmoPage>, offset: int) -> Option<VmoPage>
    decreases pages.len(),
{
    if pages.len() == 0 {
        None
    } else if pages[0].offset == offset {
        Some(pages[0])
    } else {
        page_for(pages.drop_first(), offset)
    }
}

/// Whether the page for `offset` is recorded and present.
pub open spec fn page_mapped(pages: Seq<VmoPage>, offset: int) -> bool {
    page_for(pages, offset) is Some && page_for(pages, offset)->0.present
}

fn find_page(pages: &[VmoPage], offset: usize) -> (r: Option<VmoPage>)
    ensures
        r == page_for(pages@, offset as int),
{
    let mut i: usize = 0;
    assert(pages@.subrange(0, pages@.len() as int) =~= pages@);
    while i < pages.len()
        invariant
            i <= pages@.len(),
            page_for(pages@, offset as int) == page_for(pages@.subrange(i as int, pages@.len() as int), offset as int),
        decreases pages@.len() - i,
    {
        let p = pages[i];
        assert(pages@.subrange(i as int, pages@.len() as int)[0] == p);
        assert(pages@.subrange(i as int, pages@.len() as int).drop_first() =~= pages@.subrange(i + 1, pages@.len() as int));
        if p.offset == offset {
            return Some(p);
        }
        i = i + 1;
    }
    assert(pages@.subrange(i as int, pages@.len() as int).len() == 0);
    None
}

/// The first `n` pairs of `plan` map the pages of the VMO from `vaddr` on.
pub open spec fn plan_prefix_ok(pages: Seq<VmoPage>, vaddr: u64, plan: Seq<(u64, u64)>) -> bool {
    forall|i: int| 0 <= i < plan.len() ==> #[trigger] plan_entry_ok(pages, vaddr, plan[i], i)
}

/// `pair` maps page `i` of the VMO, which is present, at `vaddr + i * 4096`.
pub open spec fn plan_entry_ok(pages: Seq<VmoPage>, vaddr: u64, pair: (u64, u64), i: int) -> bool {
    page_mapped(pages, i * 4096) && pair == ((vaddr + i * 4096) as u64, page_for(pages, i * 4096)->0.paddr)
}

/// The pages of a VMO of `size` bytes to map at `vaddr`, as (virtual,
/// physical) pairs in order, up to the first page that is not present; the
/// error when there is one.
pub fn map_vmo_into_kernel_table(pages: &[VmoPage], vaddr: u64, size: u64) -> (r: (
    Vec<(u64, u64)>,
    Option<&'static str>,
))
    requires
        size + 4096 <= usize::MAX,
        vaddr + size + 4095 <= u64::MAX,
    ensures
        r.0@.len() <= (size + 4095) / 4096,
        plan_prefix_ok(pages@, vaddr, r.0@),
        r.0@.len() < (size + 4095) / 4096 ==> !page_mapped(pages@, r.0@.len() as int * 4096) && r.1 == Some(
            "VMO page not present",
        ),
        r.0@.len() == (size + 4095) / 4096 ==> r.1 is None,
{
    let sz = size as usize;
    assert(sz == size);
    let num_pages = (sz + PAGE_SIZE - 1) / PAGE_SIZE;
    let mut plan: Vec<(u64, u64)> = Vec::new();
    let mut i: usize = 0;
    while i < num_pages
        invariant
            num_pages == (size + 4095) / 4096,
            size + 4096 <= usize::MAX,
            vaddr + size + 4095 <= u64::MAX,
            i <= num_pages,
            plan@.len() == i,
            plan_prefix_ok(pages@, vaddr, plan@),
        decreases num_pages - i,
    {
        assert(i * 4096 <= size + 4095) by (nonlinear_arith)
            requires
                i < (size + 4095) / 4096,
        ;
        let page_offset = i * PAGE_SIZE;
        assert(page_offset == i * 4096);
        match find_page(pages, page_offset) {
            Some(entry) => {
                if !entry.present {
                    assert(!page_mapped(pages@, plan@.len() as int * 4096));
                    return (plan, Some("VMO page not present"));
                }
                let page_vaddr = vaddr + page_offset as u64;
                let ghost before = plan@;
                plan.push((page_vaddr, entry.paddr));
                assert forall|j: int| 0 <= j < plan@.len() implies #[trigger] plan_entry_ok(pages@, vaddr, plan@[j], j) by {
                    if j < i {
                        assert(plan@[j] == before[j]);
                        assert(plan_entry_ok(pages@, vaddr, before[j], j));
                    } else {
                        assert(j == i);
                        assert(j * 4096 == page_offset);
                        assert(page_for(pages@, j * 4096) == Some(entry));
                        assert(page_vaddr == vaddr + j * 4096);
                    }
                }
                assert(plan_prefix_ok(pages@, vaddr, plan@));
            },
            None => {
                assert(!page_mapped(pages@, plan@.len() as int * 4096));
                return (plan, Some("VMO page not present"));
            },
        }
        i = i + 1;
    }
    (plan, None)
}

/// A mapping that a process's address space holds: `size` bytes of the
/// VMO `vmo` at `vaddr`, with the ELF permission `flags`.
#[derive(Debug, Clone, Copy, PartialEq, Eq, Structural)]
pub struct VmoMapping {
    pub vmo: VmoId,
    pub vaddr: u64,
    pub size: u64,
    pub flags: u32,
}

/// A loaded process ready to run.
pub struct ProcessImage {
    /// Entry point
    pub entry: u64,
    /// What its address space maps, in order: each segment, then the stack
    pub address_space: Vec<VmoMapping>,
    /// The loaded segments, whose VMOs the mappings name
    pub segments: Vec<LoadedSegment>,
    /// The stack's VMO, zero-filled
    pub stack_vmo: Vmo,
    /// Top of the stack
    pub stack_top: u64,
    /// Size of the stack
    pub stack_size: u64,
}

/// Where the stack of `size` bytes below `top` is mapped: its bottom,
/// rounded down to a page.
pub open spec fn stack_bottom(top: u64, size: u64) -> u64 {
    ((top - size) as u64) & !0xFFFu64
}

/// Why loading the ELF image `s` fails, if it does.
pub open spec fn elf_load_error(s: Seq<u8>) -> Option<&'static str> {
    if header_error(s) is Some {
        header_error(s)
    } else if image_validate_error(s) is Some {
        image_validate_error(s)
    } else if load_headers(table_headers(s)).len() == 0 {
        Some("No LOAD segments found in ELF")
    } else {
        first_seg_error(s.len() as int, load_headers(table_headers(s)))
    }
}

/// Load an ELF executable as a process: its segments, each mapped at its
/// address, and a zero-filled stack mapped read-write below the stack top.
pub fn load_elf_process(elf_data: &[u8], ids: &mut IdAllocator) -> (r: Result<ProcessImage, &'static str>)
    ensures
        r is Ok <==> elf_load_error(elf_data@) is None,
        r matches Err(e) ==> elf_load_error(elf_data@) == Some(e),
        r is Err && (header_error(elf_data@) is Some || image_validate_error(elf_data@) is Some
            || load_headers(table_headers(elf_data@)).len() == 0) ==> *final(ids) == *old(ids),
        r is Err && header_error(elf_data@) is None && image_validate_error(elf_data@) is None
            ==> final(ids).next == nth_id(
            old(ids).next,
            loaded_before_error(elf_data@.len() as int, load_headers(table_headers(elf_data@))) as int,
        ),
        r matches Ok(img) ==> {
            let loads = load_headers(table_headers(elf_data@));
            let n = loads.len() as int;
            &&& final(ids).next == nth_id(old(ids).next, n + 1)
            &&& forall|i: int| 0 <= i < n ==> (#[trigger] img.segments@[i]).vmo.id == nth_id(old(ids).next, i)
            &&& img.stack_vmo.id == nth_id(old(ids).next, n)
            &&& img.entry == le64(elf_data@, 24)
            &&& img.stack_top == USER_STACK_TOP
            &&& img.stack_size == USER_STACK_SIZE
            &&& img.segments@.len() == n
            &&& forall|i: int| 0 <= i < n ==> #[trigger] segment_loaded(elf_data@, loads[i], img.segments@[i])
            &&& img.address_space@.len() == n + 1
            &&& forall|i: int|
                0 <= i < n ==> #[trigger] img.address_space@[i] == (VmoMapping {
                    vmo: img.segments@[i].vmo.id,
                    vaddr: img.segments@[i].vaddr,
                    size: img.segments@[i].size,
                    flags: img.segments@[i].flags,
                })
            &&& img.address_space@[n] == (VmoMapping {
                vmo: img.stack_vmo.id,
                vaddr: stack_bottom(USER_STACK_TOP, USER_STACK_SIZE),
                size: USER_STACK_SIZE,
                flags: 6,
            })
            &&& img.stack_vmo.wf()
            &&& img.stack_vmo.size == page_round_up(USER_STACK_SIZE as int)
            &&& img.stack_vmo.content@ == Seq::new(USER_STACK_SIZE as nat, |i: int| 0u8)
        },
{
    let loaded = match load_elf(elf_data, ids) {
        Ok(l) => l,
        Err(e) => {
            return Err(e);
        },
    };
    let ghost loads = load_headers(table_headers(elf_data@));
    let mut address_space: Vec<VmoMapping> = Vec::new();
    let mut i: usize = 0;
    while i < loaded.segments.len()
        invariant
            i <= loaded.segments@.len(),
            address_space@.len() == i,
            forall|j: int|
                0 <= j < i ==> #[trigger] address_space@[j] == (VmoMapping {
                    vmo: loaded.segments@[j].vmo.id,
                    vaddr: loaded.segments@[j].vaddr,
                    size: loaded.segments@[j].size,
                    flags: loaded.segments@[j].flags,
                }),
        decreases loaded.segments@.len() - i,
    {
        let seg = &loaded.segments[i];
        address_space.push(VmoMapping { vmo: seg.vmo.id, vaddr: seg.vaddr, size: seg.size, flags: seg.flags });
        i = i + 1;
    }
    let stack_size: usize = loaded.stack_size as usize;
    let mut stack_vmo = match Vmo::create(stack_size, VmoFlags::empty(), ids) {
        Ok(v) => v,
        Err(_) => {
            return Err("Failed to create stack VMO");
        },
    };
    let ghost stack_id = stack_vmo.id;
    proof {
        lemma_nth_id_step(old(ids).next, loaded.segments@.len() as int);
    }
    let mut offset: usize = 0;
    while offset < stack_size
        invariant
            stack_size == USER_STACK_SIZE,
            offset <= stack_size,
            stack_vmo.wf(),
            stack_vmo.size == page_round_up(USER_STACK_SIZE as int),
            stack_vmo.content@ == Seq::new(offset as nat, |k: int| 0u8),
            stack_vmo.id == stack_id,
        decreases stack_size - offset,
    {
        let chunk_size = if PAGE_SIZE < stack_size - offset { PAGE_SIZE } else { stack_size - offset };
        let zero_chunk: Vec<u8> = vec![0u8; chunk_size];
        proof {
            lemma_page_round_up(USER_STACK_SIZE as int);
        }
        match stack_vmo.write(offset, zero_chunk.as_slice()) {
            Ok(_) => {},
            Err(_) => {
                return Err("Failed to allocate stack pages");
            },
        }
        proof {
            assert(zero_chunk@.take(chunk_size as int) =~= zero_chunk@);
            assert(written(Seq::new(offset as nat, |k: int| 0u8), offset as int, zero_chunk@) =~= Seq::new(
                (offset + chunk_size) as nat,
                |k: int| 0u8,
            ));
        }
        offset = offset + chunk_size;
    }
    let bottom = (loaded.stack_addr - loaded.stack_size) & !0xFFFu64;
    address_space.push(VmoMapping { vmo: stack_vmo.id, vaddr: bottom, size: loaded.stack_size, flags: 6 });
    Ok(ProcessImage {
        entry: loaded.entry,
        address_space,
        segments: loaded.segments,
        stack_vmo,
        stack_top: loaded.stack_addr,
        stack_size: loaded.stack_size,
    })
}

} // verus!
