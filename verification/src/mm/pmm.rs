//! Physical memory manager.
//!
//! Physical memory is a list of arenas; each arena tracks the state (free,
//! allocated, reserved) of its pages, page `i` living at `base + i * 4096`.
//! Allocation scans the arenas in order and takes the first free page of
//! the first arena that matches the requested zone.

use vstd::prelude::*;
use crate::arch::amd64::mm::page_tables::{PAddr, VAddr, RxStatus, RxResult, PAGE_SIZE};

verus! {

/// log2 of the page size.
pub const PAGE_SIZE_SHIFT: u8 = 12;

/// Mask of the offset bits within a page.
pub const PAGE_MASK: usize = 4095;

/// Maximum number of arenas.
pub const MAX_ARENAS: usize = 8;

/// Arena flag: below 4 GiB.
pub const ARENA_FLAG_LOW_MEM: u32 = 0x1;
/// Arena flag: at or above 4 GiB.
pub const ARENA_FLAG_HIGH_MEM: u32 = 0x2;
/// Arena flag: kernel metadata zone.
pub const ARENA_FLAG_KERNEL: u32 = 0x4;
/// Arena flag: user memory zone.
pub const ARENA_FLAG_USER: u32 = 0x8;

/// Allocation flag: any arena.
pub const PMM_ALLOC_FLAG_ANY: u32 = 0x0;
/// Allocation flag: low-memory arenas only.
pub const PMM_ALLOC_FLAG_LOW_MEM: u32 = 0x1;
/// Allocation flag: kernel-zone arenas only.
pub const PMM_ALLOC_FLAG_KERNEL: u32 = 0x4;
/// Allocation flag: user-zone arenas only.
pub const PMM_ALLOC_FLAG_USER: u32 = 0x8;

/// Kernel zone start (1 MiB).
pub const KERNEL_ZONE_START: u64 = 0x0010_0000;
/// Kernel zone end (16 MiB).
pub const KERNEL_ZONE_END: u64 = 0x00FF_FFFF;
/// User zone start (16 MiB).
pub const USER_ZONE_START: u64 = 0x0100_0000;
/// User zone end (2 GiB).
pub const USER_ZONE_END: u64 = 0x7FFF_FFFF;

/// Offset of the kernel's direct map of physical memory.
pub const KERNEL_PHYS_OFFSET: u64 = 0xffff_8000_0000_0000;

/// Physical memory below this address is identity mapped.
pub const IDENTITY_MAP_LIMIT: u64 = 0x8000_0000;

/// Whether an address is page aligned.
pub fn is_page_aligned(addr: usize) -> (r: bool)
    ensures
        r == (addr % 4096 == 0),
{
    assert(addr & 4095usize == addr % 4096) by (bit_vector);
    (addr & PAGE_MASK) == 0
}

/// Round an address down to a page boundary.
pub fn align_page_down(addr: usize) -> (r: usize)
    ensures
        r == addr - addr % 4096,
{
    assert(addr & !4095usize == addr - addr % 4096) by (bit_vector);
    addr & !PAGE_MASK
}

/// Round an address up to a page boundary.
pub fn align_page_up(addr: usize) -> (r: usize)
    requires
        addr + 4095 <= usize::MAX,
    ensures
        r == (addr + 4095) - (addr + 4095) % 4096,
        r % 4096 == 0,
        addr <= r < addr + 4096,
{
    let s = addr + PAGE_MASK;
    assert(s & !4095usize == s - s % 4096) by (bit_vector);
    s & !PAGE_MASK
}

/// Number of pages needed for `bytes` bytes.
pub fn bytes_to_pages(bytes: usize) -> (r: usize)
    requires
        bytes + 4095 <= usize::MAX,
    ensures
        r == (bytes + 4095) / 4096,
{
    (bytes + PAGE_MASK) / PAGE_SIZE
}

/// Bytes in `pages` pages.
pub fn pages_to_bytes(pages: usize) -> (r: usize)
    requires
        pages * 4096 <= usize::MAX,
    ensures
        r == pages * 4096,
{
    pages * PAGE_SIZE
}

/// State of a physical page.
#[derive(Debug, Clone, Copy, PartialEq, Eq, Structural)]
pub enum PageState {
    Free,
    Allocated,
    Reserved,
}

impl PageState {
    /// Whether the page is free.
    pub fn is_free(&self) -> (r: bool)
        ensures
            r == (*self == PageState::Free),
    {
        match self {
            PageState::Free => true,
            _ => false,
        }
    }
}

/// Description of a physical memory arena.
#[derive(Debug, Clone, Copy)]
pub struct ArenaInfo {
    pub name: [u8; 16],
    pub flags: u32,
    pub priority: u32,
    pub base: PAddr,
    pub size: usize,
}

/// Name of the low-memory arena.
pub const LOW_MEM_NAME: [u8; 8] = [108, 111, 119, 95, 109, 101, 109, 0];

/// Name of the high-memory arena.
pub const HIGH_MEM_NAME: [u8; 9] = [104, 105, 103, 104, 95, 109, 101, 109, 0];

impl ArenaInfo {
    /// The description has these flags, priority, base and size.
    pub open spec fn describes(&self, flags: u32, priority: u32, base: PAddr, size: usize) -> bool {
        self.flags == flags && self.priority == priority && self.base == base && self.size == size
    }

    /// Describe an arena; the name keeps its first 16 bytes.
    pub fn new(name: &[u8], flags: u32, priority: u32, base: PAddr, size: usize) -> (r: ArenaInfo)
        ensures
            r.flags == flags && r.priority == priority && r.base == base && r.size == size,
            forall|i: int| 0 <= i < 16 ==> r.name@[i] == (if i < name@.len() { name@[i] } else { 0u8 }),
    {
        let mut name_bytes: [u8; 16] = [0u8; 16];
        let mut i: usize = 0;
        while i < 16 && i < name.len()
            invariant
                i <= 16,
                i <= name@.len(),
                name_bytes@.len() == 16,
                forall|j: int| 0 <= j < i ==> name_bytes@[j] == name@[j],
                forall|j: int| i <= j < 16 ==> name_bytes@[j] == 0u8,
            decreases 16 - i,
        {
            name_bytes[i] = name[i];
            i = i + 1;
        }
        assert(i == 16 || i == name@.len());
        ArenaInfo { name: name_bytes, flags, priority, base, size }
    }

    /// Number of whole pages in the arena.
    pub fn page_count(&self) -> (r: usize)
        ensures
            r == self.size / 4096,
    {
        self.size / PAGE_SIZE
    }

    /// End address (exclusive).
    pub fn end(&self) -> (r: PAddr)
        requires
            self.base + self.size <= u64::MAX,
        ensures
            r == self.base + self.size,
    {
        self.base + self.size as u64
    }
}

/// One physical page.
#[derive(Debug)]
pub struct Page {
    pub paddr: PAddr,
    pub state: PageState,
    pub ref_count: u32,
    pub arena_index: u8,
    pub page_index: u32,
}

impl Page {
    /// A free page record.
    pub fn new(paddr: PAddr, arena_index: u8, page_index: u32) -> (p: Page)
        ensures
            p.paddr == paddr && p.state == PageState::Free && p.ref_count == 0
                && p.arena_index == arena_index && p.page_index == page_index,
    {
        Page { paddr, state: PageState::Free, ref_count: 0, arena_index, page_index }
    }

    /// Whether the page is free.
    pub fn is_free(&self) -> (r: bool)
        ensures
            r == (self.state == PageState::Free),
    {
        self.state.is_free()
    }
}

/// An arena: its description and its pages.
pub struct Arena {
    info: ArenaInfo,
    pages: Vec<Page>,
    total_count: u64,
}

impl Arena {
    /// The arena's description.
    pub closed spec fn info_of(&self) -> ArenaInfo {
        self.info
    }

    /// Number of pages.
    pub closed spec fn len(&self) -> int {
        self.pages@.len() as int
    }

    /// State of page `i`.
    pub closed spec fn state(&self, i: int) -> PageState {
        self.pages@[i].state
    }

    /// Reference count of page `i`.
    pub closed spec fn refs(&self, i: int) -> u32 {
        self.pages@[i].ref_count
    }

    /// The arena index its pages record.
    pub closed spec fn arena_index(&self) -> u8 {
        self.pages@[0].arena_index
    }

    /// Page `i` lives at `base + i * 4096`; the page count covers the size;
    /// free pages are referenced by no one.
    pub closed spec fn wf(&self) -> bool {
        &&& self.info.base + self.info.size <= u64::MAX
        &&& self.pages@.len() == self.info.size / 4096
        &&& self.total_count == self.pages@.len()
        &&& forall|i: int|
            0 <= i < self.pages@.len() ==> #[trigger] self.pages@[i].paddr == self.info.base + i
                * 4096
        &&& forall|i: int|
            0 <= i < self.pages@.len() && #[trigger] self.pages@[i].state == PageState::Free
                ==> self.pages@[i].ref_count == 0
        &&& forall|i: int|
            0 <= i < self.pages@.len() ==> (#[trigger] self.pages@[i]).arena_index == self.pages@[0].arena_index
                && self.pages@[i].page_index == i as u32
    }

    /// A well-formed arena's free pages have no references.
    pub proof fn lemma_free_unreferenced(&self, i: int)
        requires
            self.wf(),
            0 <= i < self.len(),
            self.state(i) == PageState::Free,
        ensures
            self.refs(i) == 0,
    {
    }

    /// Whether `addr` lies in `[base, base + size)`.
    pub open spec fn contains_addr(&self, addr: u64) -> bool {
        self.info_of().base <= addr < self.info_of().base + self.info_of().size
    }

    fn address_in_arena(&self, addr: PAddr) -> (r: bool)
        requires
            self.wf(),
        ensures
            r == self.contains_addr(addr),
    {
        addr >= self.info.base && addr < (self.info.base + self.info.size as u64)
    }

    /// Take the first free page; `None` when none is free.
    fn alloc_page(&mut self) -> (r: Option<PAddr>)
        requires
            old(self).wf(),
        ensures
            final(self).wf(),
            final(self).arena_index() == old(self).arena_index(),
            r is None <==> !has_free_page(*old(self)),
            r is None ==> *final(self) == *old(self),
            r matches Some(a) ==> allocated_first_free(*old(self), *final(self), a),
    {
        let mut i: usize = 0;
        while i < self.pages.len()
            invariant
                self.wf(),
                *self == *old(self),
                i <= self.pages@.len(),
                forall|j: int| 0 <= j < i ==> self.pages@[j].state != PageState::Free,
            decreases self.pages@.len() - i,
        {
            if self.pages[i].is_free() {
                let paddr = self.pages[i].paddr;
                proof {
                    assert(self.pages@[i as int].paddr == self.info.base + i * 4096);
                    assert((paddr - self.info.base) / 4096 == i as int) by (nonlinear_arith)
                        requires
                            paddr == self.info.base + i * 4096,
                    ;
                    assert(self.state(i as int) == PageState::Free);
                    assert(has_free_page(*self));
                }
                self.set_state(i, PageState::Allocated, 1);
                return Some(paddr);
            }
            i = i + 1;
        }
        assert forall|j: int| 0 <= j < self.len() implies self.state(j) != PageState::Free by {
            assert(self.pages@[j].state != PageState::Free);
        }
        None
    }

    /// Free the page at `paddr`.
    fn free_page(&mut self, paddr: PAddr) -> (r: RxStatus)
        requires
            old(self).wf(),
            old(self).contains_addr(paddr),
        ensures
            final(self).wf(),
            final(self).arena_index() == old(self).arena_index(),
            freed_at(*old(self), *final(self), paddr, r),
    {
        let offset = paddr - self.info.base;
        if offset % (PAGE_SIZE as u64) != 0 {
            return RxStatus::ERR_INVALID_ARGS;
        }
        let index64 = offset / (PAGE_SIZE as u64);
        if index64 >= self.total_count {
            return RxStatus::ERR_INVALID_ARGS;
        }
        let index = index64 as usize;
        self.set_state(index, PageState::Free, 0);
        RxStatus::OK
    }

    /// Free `count` pages from `paddr` on, ignoring those the arena rejects.
    fn free_range(&mut self, paddr: PAddr, count: usize)
        requires
            old(self).wf(),
            count >= 1,
            paddr + count * 4096 <= u64::MAX,
            old(self).contains_addr(paddr),
            old(self).contains_addr((paddr + count * 4096 - 1) as u64),
        ensures
            final(self).wf(),
            final(self).arena_index() == old(self).arena_index(),
            ({
                let off = paddr - old(self).info_of().base;
                range_set(*old(self), *final(self), off / 4096, count as int, off % 4096 == 0,
                    PageState::Free, false, 0)
            }),
    {
        let ghost start = *self;
        let ghost off: int = paddr - self.info.base;
        let mut i: usize = 0;
        while i < count
            invariant
                self.wf(),
                self.arena_index() == start.arena_index(),
                i <= count,
                paddr + count * 4096 <= u64::MAX,
                start.contains_addr(paddr),
                start.contains_addr((paddr + count * 4096 - 1) as u64),
                off == paddr - start.info_of().base,
                range_set(start, *self, off / 4096, i as int, off % 4096 == 0, PageState::Free, false, 0),
            decreases count - i,
        {
            let page_paddr = paddr + (i as u64) * (PAGE_SIZE as u64);
            proof {
                assert((off + i * 4096) / 4096 == off / 4096 + i && (off + i * 4096) % 4096 == off % 4096)
                    by (nonlinear_arith)
                    requires
                        off >= 0,
                        i >= 0,
                ;
            }
            let ghost before = *self;
            let _ = self.free_page(page_paddr);
            i = i + 1;
        }
    }

    /// Mark pages `(paddr - base) / 4096 + i` for `i < count` reserved, where
    /// they exist, keeping their reference counts.
    fn reserve_range(&mut self, paddr: PAddr, count: usize)
        requires
            old(self).wf(),
            count >= 1,
            paddr + count * 4096 <= u64::MAX,
            old(self).contains_addr(paddr),
        ensures
            final(self).wf(),
            final(self).arena_index() == old(self).arena_index(),
            ({
                let off = paddr - old(self).info_of().base;
                range_set(*old(self), *final(self), off / 4096, count as int, true,
                    PageState::Reserved, true, 0)
            }),
    {
        let ghost start = *self;
        let ghost off: int = paddr - self.info.base;
        let mut i: usize = 0;
        while i < count
            invariant
                self.wf(),
                self.arena_index() == start.arena_index(),
                i <= count,
                paddr + count * 4096 <= u64::MAX,
                start.contains_addr(paddr),
                self.info_of() == start.info_of(),
                off == paddr - start.info_of().base,
                range_set(start, *self, off / 4096, i as int, true, PageState::Reserved, true, 0),
            decreases count - i,
        {
            let page_paddr = paddr + (i as u64) * (PAGE_SIZE as u64);
            let offset = page_paddr - self.info.base;
            let index64 = offset / (PAGE_SIZE as u64);
            proof {
                assert((off + i * 4096) / 4096 == off / 4096 + i) by (nonlinear_arith)
                    requires
                        off >= 0,
                        i >= 0,
                ;
            }
            if index64 < self.total_count {
                self.set_state_keep_refs(index64 as usize, PageState::Reserved);
            }
            i = i + 1;
        }
    }

    /// Start of the first run of `count` free pages, if any.
    fn find_free_run(&self, count: usize) -> (r: Option<usize>)
        requires
            self.wf(),
            count >= 1,
        ensures
            r is None <==> !has_free_run(*self, count as int),
            r matches Some(s) ==> is_first_free_run(*self, s as int, count as int),
    {
        let len = self.pages.len();
        let mut start: usize = 0;
        while start <= len && count <= len - start
            invariant
                self.wf(),
                len == self.pages@.len(),
                count >= 1,
                forall|s2: int|
                    0 <= s2 < start && s2 + count <= len ==> !run_free(*self, s2, count as int),
            decreases len - start,
        {
            let mut p = start;
            while p < start + count && self.pages[p].is_free()
                invariant
                    self.wf(),
                    len == self.pages@.len(),
                    start + count <= len,
                    start <= p <= start + count,
                    forall|j: int| start <= j < p ==> self.state(j) == PageState::Free,
                decreases start + count - p,
            {
                p = p + 1;
            }
            if p == start + count {
                proof {
                    assert(run_free(*self, start as int, count as int));
                }
                return Some(start);
            }
            proof {
                assert(self.state(p as int) != PageState::Free);
                assert forall|s2: int|
                    0 <= s2 < p + 1 && s2 + count <= len implies !run_free(*self, s2, count as int) by {
                    if s2 >= start {
                        assert(s2 <= p < s2 + count);
                    }
                }
            }
            start = p + 1;
        }
        proof {
            assert forall|s2: int| 0 <= s2 && s2 + count <= len implies !run_free(*self, s2, count as int) by {
                assert(s2 < start);
            }
        }
        None
    }

    /// Allocate pages `first .. first + count`.
    fn allocate_run(&mut self, first: usize, count: usize)
        requires
            old(self).wf(),
            first + count <= old(self).len(),
        ensures
            final(self).wf(),
            final(self).arena_index() == old(self).arena_index(),
            range_set(*old(self), *final(self), first as int, count as int, true,
                PageState::Allocated, false, 1),
    {
        let ghost start = *self;
        let mut i: usize = first;
        while i < first + count
            invariant
                self.wf(),
                self.arena_index() == start.arena_index(),
                first <= i <= first + count,
                first + count <= start.len(),
                range_set(start, *self, first as int, i - first, true, PageState::Allocated, false, 1),
            decreases first + count - i,
        {
            self.set_state(i, PageState::Allocated, 1);
            i = i + 1;
        }
    }

    /// Set the state and reference count of page `index`.
    fn set_state(&mut self, index: usize, state: PageState, ref_count: u32)
        requires
            old(self).wf(),
            index < old(self).len(),
            state == PageState::Free ==> ref_count == 0,
        ensures
            final(self).wf(),
            final(self).arena_index() == old(self).arena_index(),
            final(self).info_of() == old(self).info_of(),
            final(self).len() == old(self).len(),
            final(self).state(index as int) == state && final(self).refs(index as int) == ref_count,
            forall|j: int| 0 <= j < old(self).len() && j != index ==> final(self).state(j)
                == old(self).state(j) && final(self).refs(j) == old(self).refs(j),
    {
        let ghost old_pages = self.pages@;
        let page = Page {
            paddr: self.pages[index].paddr,
            state,
            ref_count,
            arena_index: self.pages[index].arena_index,
            page_index: self.pages[index].page_index,
        };
        self.pages.set(index, page);
        proof {
            assert forall|j: int| 0 <= j < self.pages@.len() implies #[trigger] self.pages@[j].paddr
                == self.info.base + j * 4096 by {
                if j != index {
                    assert(self.pages@[j] == old_pages[j]);
                }
            }
        }
    }

    /// Set the state of page `index`, keeping its reference count.
    fn set_state_keep_refs(&mut self, index: usize, state: PageState)
        requires
            old(self).wf(),
            index < old(self).len(),
            state != PageState::Free,
        ensures
            final(self).wf(),
            final(self).arena_index() == old(self).arena_index(),
            final(self).info_of() == old(self).info_of(),
            final(self).len() == old(self).len(),
            final(self).state(index as int) == state,
            forall|j: int| 0 <= j < old(self).len() ==> final(self).refs(j) == old(self).refs(j),
            forall|j: int| 0 <= j < old(self).len() && j != index ==> final(self).state(j)
                == old(self).state(j),
    {
        let rc = self.pages[index].ref_count;
        self.set_state(index, state, rc);
    }

    /// Number of free pages.
    fn count_free_pages(&self) -> (r: u64)
        requires
            self.wf(),
        ensures
            r == count_free(self, self.len()),
    {
        let mut n: u64 = 0;
        let mut i: usize = 0;
        while i < self.pages.len()
            invariant
                self.wf(),
                i <= self.pages@.len(),
                n == count_free(self, i as int),
                n <= i,
            decreases self.pages@.len() - i,
        {
            if self.pages[i].is_free() {
                n = n + 1;
            }
            i = i + 1;
        }
        n
    }
}

/// Whether some page of the arena is free.
pub open spec fn has_free_page(a: Arena) -> bool {
    exists|j: int| 0 <= j < a.len() && a.state(j) == PageState::Free
}

/// Whether page `p` is the first free page of the arena.
pub open spec fn is_first_free(a: Arena, p: int) -> bool {
    &&& 0 <= p < a.len()
    &&& a.state(p) == PageState::Free
    &&& forall|j: int| 0 <= j < p ==> a.state(j) != PageState::Free
}

/// `after` is `before` with page `p` given the state `s` and reference count `rc`.
pub open spec fn page_set(before: Arena, after: Arena, p: int, s: PageState, rc: u32) -> bool {
    &&& after.info_of() == before.info_of()
    &&& after.len() == before.len()
    &&& after.state(p) == s
    &&& after.refs(p) == rc
    &&& forall|j: int| 0 <= j < before.len() && j != p ==> after.state(j) == before.state(j)
        && after.refs(j) == before.refs(j)
}

/// `after` is `before` with its first free page allocated, and `addr` is that page.
pub open spec fn allocated_first_free(before: Arena, after: Arena, addr: u64) -> bool {
    let p = (addr - before.info_of().base) / 4096;
    &&& addr == before.info_of().base + p * 4096
    &&& is_first_free(before, p)
    &&& page_set(before, after, p, PageState::Allocated, 1)
}

/// The outcome of freeing the page at `paddr`: `OK` and the page free when
/// `paddr` is a page of the arena, else `ERR_INVALID_ARGS` and no change.
pub open spec fn freed_at(before: Arena, after: Arena, paddr: u64, r: RxStatus) -> bool {
    &&& r == (if is_page_of(before, paddr) {
        RxStatus::OK
    } else {
        RxStatus::ERR_INVALID_ARGS
    })
    &&& freed(before, after, paddr)
}

/// `paddr` is the start of a page of the arena.
pub open spec fn is_page_of(a: Arena, paddr: u64) -> bool {
    let off = paddr - a.info_of().base;
    off % 4096 == 0 && off / 4096 < a.len()
}

/// `after` is `before` with the page at `paddr` freed, if it is one.
pub open spec fn freed(before: Arena, after: Arena, paddr: u64) -> bool {
    if is_page_of(before, paddr) {
        page_set(before, after, (paddr - before.info_of().base) / 4096, PageState::Free, 0)
    } else {
        after == before
    }
}

/// `after` is `before` with the existing pages among `first .. first + count`
/// set to state `s` (and, unless `keep_refs`, reference count `rc`), all
/// other pages unchanged; when `apply` is false nothing changes.
pub open spec fn range_set(
    before: Arena,
    after: Arena,
    first: int,
    count: int,
    apply: bool,
    s: PageState,
    keep_refs: bool,
    rc: u32,
) -> bool {
    &&& after.info_of() == before.info_of()
    &&& after.len() == before.len()
    &&& forall|j: int|
        0 <= j < before.len() ==> if apply && first <= j < first + count {
            after.state(j) == s && after.refs(j) == (if keep_refs { before.refs(j) } else { rc })
        } else {
            after.state(j) == before.state(j) && after.refs(j) == before.refs(j)
        }
}

/// Pages `s .. s + count` are all free.
pub open spec fn run_free(a: Arena, s: int, count: int) -> bool {
    forall|j: int| s <= j < s + count ==> a.state(j) == PageState::Free
}

/// Some run of `count` free pages exists.
pub open spec fn has_free_run(a: Arena, count: int) -> bool {
    exists|s: int| 0 <= s && s + count <= a.len() && run_free(a, s, count)
}

/// `s` starts the first run of `count` free pages.
pub open spec fn is_first_free_run(a: Arena, s: int, count: int) -> bool {
    &&& 0 <= s
    &&& s + count <= a.len()
    &&& run_free(a, s, count)
    &&& forall|s2: int| 0 <= s2 < s ==> !run_free(a, s2, count)
}

/// Number of free pages among the first `k` of an arena.
pub open spec fn count_free(a: &Arena, k: int) -> nat
    decreases k,
{
    if k <= 0 {
        0
    } else {
        count_free(a, k - 1) + (if a.state(k - 1) == PageState::Free { 1nat } else { 0nat })
    }
}

/// Whether an arena with flags `arena_flags` may serve a request with `flags`.
pub open spec fn zone_matches(flags: u32, arena_flags: u32) -> bool {
    &&& (flags == PMM_ALLOC_FLAG_LOW_MEM ==> arena_flags & ARENA_FLAG_LOW_MEM != 0)
    &&& (flags == PMM_ALLOC_FLAG_KERNEL ==> arena_flags & ARENA_FLAG_KERNEL != 0)
    &&& (flags == PMM_ALLOC_FLAG_USER ==> arena_flags & ARENA_FLAG_USER != 0)
}

/// Whether an arena can hand out a page for a request with `flags`.
pub open spec fn can_serve(a: Arena, flags: u32) -> bool {
    zone_matches(flags, a.info_of().flags) && has_free_page(a)
}

/// Arena `k` is the first arena that can serve a request with `flags`.
pub open spec fn first_serving(arenas: Seq<Arena>, flags: u32, k: int) -> bool {
    &&& 0 <= k < arenas.len()
    &&& can_serve(arenas[k], flags)
    &&& forall|j: int| 0 <= j < k ==> !can_serve(#[trigger] arenas[j], flags)
}

/// The physical memory manager: its arenas, in the order they were added.
pub struct Pmm {
    arenas: Vec<Arena>,
}

impl Pmm {
    /// The arenas, in the order they were added.
    pub closed spec fn arenas(&self) -> Seq<Arena> {
        self.arenas@
    }

    /// At most `MAX_ARENAS` arenas, each well formed.
    pub closed spec fn wf(&self) -> bool {
        &&& self.arenas@.len() <= MAX_ARENAS
        &&& forall|k: int| 0 <= k < self.arenas@.len() ==> #[trigger] self.arenas@[k].wf()
        &&& forall|k: int| 0 <= k < self.arenas@.len() ==> (#[trigger] self.arenas@[k]).arena_index() == k
    }

    /// A manager with no arenas.
    pub fn new() -> (p: Pmm)
        ensures
            p.wf(),
            p.arenas().len() == 0,
    {
        Pmm { arenas: Vec::new() }
    }

    /// Number of arenas.
    pub fn arena_count(&self) -> (r: usize)
        ensures
            r == self.arenas().len(),
    {
        self.arenas.len()
    }

    /// The description of arena `k`.
    pub fn arena_info(&self, k: usize) -> (r: ArenaInfo)
        requires
            k < self.arenas().len(),
        ensures
            r == self.arenas()[k as int].info_of(),
    {
        self.arenas[k].info
    }
}

/// Add an arena of `info.size / 4096` free pages.
///
/// Fails with `ERR_NO_MEMORY` when `MAX_ARENAS` arenas exist already, and
/// with `ERR_INVALID_ARGS` when the arena holds no whole page.
pub fn pmm_add_arena(pmm: &mut Pmm, info: ArenaInfo) -> (r: RxStatus)
    requires
        old(pmm).wf(),
        old(pmm).arenas().len() < MAX_ARENAS && info.size >= 4096 ==> info.base + info.size
            <= u64::MAX,
    ensures
        final(pmm).wf(),
        old(pmm).arenas().len() >= MAX_ARENAS ==> r == RxStatus::ERR_NO_MEMORY
            && final(pmm).arenas() == old(pmm).arenas(),
        old(pmm).arenas().len() < MAX_ARENAS && info.size < 4096 ==> r == RxStatus::ERR_INVALID_ARGS
            && final(pmm).arenas() == old(pmm).arenas(),
        old(pmm).arenas().len() < MAX_ARENAS && info.size >= 4096 ==> {
            &&& r == RxStatus::OK
            &&& final(pmm).arenas().len() == old(pmm).arenas().len() + 1
            &&& final(pmm).arenas().subrange(0, old(pmm).arenas().len() as int) == old(pmm).arenas()
            &&& final(pmm).arenas().last().info_of() == info
            &&& final(pmm).arenas().last().len() == info.size / 4096
            &&& forall|j: int| 0 <= j < info.size / 4096 ==> final(pmm).arenas().last().state(j)
                == PageState::Free && final(pmm).arenas().last().refs(j) == 0
        },
{
    if pmm.arenas.len() >= MAX_ARENAS {
        return RxStatus::ERR_NO_MEMORY;
    }
    let page_count = info.page_count();
    if page_count == 0 {
        return RxStatus::ERR_INVALID_ARGS;
    }
    let arena_index = pmm.arenas.len() as u8;
    let mut pages: Vec<Page> = Vec::new();
    let mut i: usize = 0;
    while i < page_count
        invariant
            page_count == info.size / 4096,
            info.base + info.size <= u64::MAX,
            i <= page_count,
            pages@.len() == i,
            forall|j: int| 0 <= j < i ==> (#[trigger] pages@[j]).paddr == info.base + j * 4096
                && pages@[j].state == PageState::Free && pages@[j].ref_count == 0
                && pages@[j].arena_index == arena_index && pages@[j].page_index == j as u32,
        decreases page_count - i,
    {
        assert(info.base + i * 4096 <= u64::MAX) by (nonlinear_arith)
            requires
                i < info.size / 4096,
                info.base + info.size <= u64::MAX,
        ;
        let paddr = info.base + (i as u64) * (PAGE_SIZE as u64);
        let index = #[verifier::truncate] (i as u32);
        pages.push(Page::new(paddr, arena_index, index));
        i = i + 1;
    }
    let arena = Arena { info, pages, total_count: page_count as u64 };
    pmm.arenas.push(arena);
    proof {
        assert(pmm.arenas@.subrange(0, old(pmm).arenas@.len() as int) =~= old(pmm).arenas@);
        assert forall|k: int| 0 <= k < pmm.arenas@.len() implies #[trigger] pmm.arenas@[k].wf() by {
            if k < old(pmm).arenas@.len() {
                assert(pmm.arenas@[k] == old(pmm).arenas@[k]);
            }
        }
    }
    RxStatus::OK
}

/// Set up the manager with a low-memory arena and, when both its base and
/// its size are given, a high-memory arena.
pub fn pmm_init_early(
    pmm: &mut Pmm,
    low_base: PAddr,
    low_size: usize,
    high_base: Option<PAddr>,
    high_size: Option<usize>,
)
    requires
        old(pmm).wf(),
        old(pmm).arenas().len() < MAX_ARENAS && low_size >= 4096 ==> low_base + low_size
            <= u64::MAX,
        high_base is Some && high_size is Some && high_size->0 >= 4096 ==> high_base->0
            + high_size->0 <= u64::MAX,
    ensures
        final(pmm).wf(),
        ({
            let after_low: int = if old(pmm).arenas().len() < MAX_ARENAS && low_size >= 4096 {
                old(pmm).arenas().len() + 1int
            } else {
                old(pmm).arenas().len() as int
            };
            &&& final(pmm).arenas().subrange(0, old(pmm).arenas().len() as int) == old(pmm).arenas()
            &&& (after_low > old(pmm).arenas().len() ==> final(pmm).arenas()[old(pmm).arenas().len() as int].info_of().describes(ARENA_FLAG_LOW_MEM, 0, low_base, low_size))
            &&& (high_base is Some && high_size is Some && after_low < MAX_ARENAS && high_size->0 >= 4096) ==> {
                &&& final(pmm).arenas().len() == after_low + 1
                &&& final(pmm).arenas()[after_low].info_of().describes(ARENA_FLAG_HIGH_MEM, 1, high_base->0, high_size->0)
            }
            &&& !(high_base is Some && high_size is Some && after_low < MAX_ARENAS && high_size->0 >= 4096)
                ==> final(pmm).arenas().len() == after_low
        }),
{
    let low_info = ArenaInfo::new(LOW_MEM_NAME.as_slice(), ARENA_FLAG_LOW_MEM, 0, low_base, low_size);
    let _ = pmm_add_arena(pmm, low_info);
    if let (Some(base), Some(size)) = (high_base, high_size) {
        let high_info = ArenaInfo::new(HIGH_MEM_NAME.as_slice(), ARENA_FLAG_HIGH_MEM, 1, base, size);
        let _ = pmm_add_arena(pmm, high_info);
    }
}

/// `after` is `before` with arena `k` replaced by one that satisfies `changed`.
pub open spec fn only_arena_changed(before: Seq<Arena>, after: Seq<Arena>, k: int) -> bool {
    &&& after.len() == before.len()
    &&& forall|j: int| 0 <= j < before.len() && j != k ==> after[j] == before[j]
}

/// The outcome of a one-page allocation with `flags`: `ERR_NO_MEMORY` and no
/// change when no arena can serve it; else the first arena that can serve it
/// gives up its first free page, whose address is returned.
pub open spec fn page_alloc_outcome(
    before: Seq<Arena>,
    after: Seq<Arena>,
    flags: u32,
    r: RxResult<PAddr>,
) -> bool {
    &&& r is Err <==> forall|k: int| 0 <= k < before.len() ==> !can_serve(#[trigger] before[k], flags)
    &&& r is Err ==> r == Err::<PAddr, RxStatus>(RxStatus::ERR_NO_MEMORY) && after == before
    &&& r matches Ok(addr) ==> exists|k: int|
        first_serving(before, flags, k) && only_arena_changed(before, after, k)
            && allocated_first_free(before[k], #[trigger] after[k], addr)
}

/// Allocate one page from the first arena, in the order they were added,
/// that matches `flags` and has a free page; in that arena the first free
/// page is taken. `ERR_NO_MEMORY` when no such arena exists.
pub fn pmm_alloc_page(pmm: &mut Pmm, flags: u32) -> (r: RxResult<PAddr>)
    requires
        old(pmm).wf(),
    ensures
        final(pmm).wf(),
        page_alloc_outcome(old(pmm).arenas(), final(pmm).arenas(), flags, r),
{
    let mut k: usize = 0;
    while k < pmm.arenas.len()
        invariant
            pmm.wf(),
            pmm.arenas@ == old(pmm).arenas@,
            k <= pmm.arenas@.len(),
            forall|j: int| 0 <= j < k ==> !can_serve(#[trigger] pmm.arenas@[j], flags),
        decreases pmm.arenas@.len() - k,
    {
        let arena_flags = pmm.arenas[k].info.flags;
        let skip = (flags == PMM_ALLOC_FLAG_LOW_MEM && (arena_flags & ARENA_FLAG_LOW_MEM) == 0)
            || (flags == PMM_ALLOC_FLAG_KERNEL && (arena_flags & ARENA_FLAG_KERNEL) == 0)
            || (flags == PMM_ALLOC_FLAG_USER && (arena_flags & ARENA_FLAG_USER) == 0);
        if !skip {
            let ghost before = pmm.arenas@;
            assert(pmm.arenas@[k as int].wf());
            let got = pmm.arenas[k].alloc_page();
            match got {
                Some(paddr) => {
                    proof {
                        assert forall|j: int| 0 <= j < pmm.arenas@.len() implies #[trigger] pmm.arenas@[j].wf() by {
                            if j != k {
                                assert(pmm.arenas@[j] == before[j]);
                            }
                        }
                        assert(first_serving(old(pmm).arenas(), flags, k as int));
                        assert(only_arena_changed(old(pmm).arenas(), pmm.arenas@, k as int));
                        assert(allocated_first_free(
                            old(pmm).arenas()[k as int],
                            pmm.arenas()[k as int],
                            paddr,
                        ));
                    }
                    return Ok(paddr);
                },
                None => {
                    assert(pmm.arenas@ =~= before);
                },
            }
        }
        k = k + 1;
    }
    Err(RxStatus::ERR_NO_MEMORY)
}

/// Allocate a page from a kernel-zone arena.
pub fn pmm_alloc_kernel_page(pmm: &mut Pmm) -> (r: RxResult<PAddr>)
    requires
        old(pmm).wf(),
    ensures
        final(pmm).wf(),
        page_alloc_outcome(old(pmm).arenas(), final(pmm).arenas(), PMM_ALLOC_FLAG_KERNEL, r),
{
    pmm_alloc_page(pmm, PMM_ALLOC_FLAG_KERNEL)
}

/// Allocate a page from a user-zone arena.
pub fn pmm_alloc_user_page(pmm: &mut Pmm) -> (r: RxResult<PAddr>)
    requires
        old(pmm).wf(),
    ensures
        final(pmm).wf(),
        page_alloc_outcome(old(pmm).arenas(), final(pmm).arenas(), PMM_ALLOC_FLAG_USER, r),
{
    pmm_alloc_page(pmm, PMM_ALLOC_FLAG_USER)
}

/// Allocate a page from any arena.
pub fn alloc_page(pmm: &mut Pmm) -> (r: RxResult<PAddr>)
    requires
        old(pmm).wf(),
    ensures
        final(pmm).wf(),
        page_alloc_outcome(old(pmm).arenas(), final(pmm).arenas(), PMM_ALLOC_FLAG_ANY, r),
{
    pmm_alloc_page(pmm, PMM_ALLOC_FLAG_ANY)
}

/// Arena `k` is the first arena whose address range holds `paddr`.
pub open spec fn first_containing(arenas: Seq<Arena>, paddr: u64, k: int) -> bool {
    &&& 0 <= k < arenas.len()
    &&& arenas[k].contains_addr(paddr)
    &&& forall|j: int| 0 <= j < k ==> !(#[trigger] arenas[j]).contains_addr(paddr)
}

/// Some arena's address range holds `paddr`.
pub open spec fn some_contains(arenas: Seq<Arena>, paddr: u64) -> bool {
    exists|k: int| 0 <= k < arenas.len() && (#[trigger] arenas[k]).contains_addr(paddr)
}

/// The outcome of freeing the page at `paddr`: `ERR_INVALID_ARGS` and no
/// change when no arena's range holds it; else the first arena whose range
/// holds it frees it, as `freed_at` says.
pub open spec fn page_free_outcome(before: Seq<Arena>, after: Seq<Arena>, paddr: u64, r: RxStatus) -> bool {
    &&& !some_contains(before, paddr) ==> r == RxStatus::ERR_INVALID_ARGS && after == before
    &&& some_contains(before, paddr) ==> exists|k: int|
        first_containing(before, paddr, k) && only_arena_changed(before, after, k) && freed_at(
            before[k],
            #[trigger] after[k],
            paddr,
            r,
        )
}

/// Free the page at `paddr` in the first arena whose range holds it;
/// `ERR_INVALID_ARGS` when no arena holds it, or when it is not the start of
/// a page of that arena.
pub fn pmm_free_page(pmm: &mut Pmm, paddr: PAddr) -> (r: RxStatus)
    requires
        old(pmm).wf(),
    ensures
        final(pmm).wf(),
        page_free_outcome(old(pmm).arenas(), final(pmm).arenas(), paddr, r),
{
    let mut k: usize = 0;
    while k < pmm.arenas.len()
        invariant
            pmm.wf(),
            pmm.arenas@ == old(pmm).arenas@,
            k <= pmm.arenas@.len(),
            forall|j: int| 0 <= j < k ==> !(#[trigger] pmm.arenas@[j]).contains_addr(paddr),
        decreases pmm.arenas@.len() - k,
    {
        assert(pmm.arenas@[k as int].wf());
        if pmm.arenas[k].address_in_arena(paddr) {
            let ghost before = pmm.arenas@;
            let r = pmm.arenas[k].free_page(paddr);
            proof {
                assert forall|j: int| 0 <= j < pmm.arenas@.len() implies #[trigger] pmm.arenas@[j].wf() by {
                    if j != k {
                        assert(pmm.arenas@[j] == before[j]);
                    }
                }
                assert(first_containing(old(pmm).arenas(), paddr, k as int));
                assert(only_arena_changed(old(pmm).arenas(), pmm.arenas@, k as int));
                assert(freed_at(old(pmm).arenas()[k as int], pmm.arenas()[k as int], paddr, r));
            }
            return r;
        }
        k = k + 1;
    }
    RxStatus::ERR_INVALID_ARGS
}

/// Free a page, ignoring the outcome.
pub fn free_page(pmm: &mut Pmm, paddr: PAddr)
    requires
        old(pmm).wf(),
    ensures
        final(pmm).wf(),
        !some_contains(old(pmm).arenas(), paddr) ==> final(pmm).arenas() == old(pmm).arenas(),
        some_contains(old(pmm).arenas(), paddr) ==> exists|k: int|
            first_containing(old(pmm).arenas(), paddr, k) && only_arena_changed(
                old(pmm).arenas(),
                final(pmm).arenas(),
                k,
            ) && freed(old(pmm).arenas()[k], #[trigger] final(pmm).arenas()[k], paddr),
{
    let _ = pmm_free_page(pmm, paddr);
}

/// Arena `k` is the first whose range holds both `paddr` and the last byte
/// of `count` pages from `paddr`.
pub open spec fn first_holding_range(arenas: Seq<Arena>, paddr: u64, count: int, k: int) -> bool {
    &&& 0 <= k < arenas.len()
    &&& holds_range(arenas[k], paddr, count)
    &&& forall|j: int| 0 <= j < k ==> !holds_range(#[trigger] arenas[j], paddr, count)
}

/// The arena's range holds `paddr` and the last byte of `count` pages from it.
pub open spec fn holds_range(a: Arena, paddr: u64, count: int) -> bool {
    a.contains_addr(paddr) && a.contains_addr((paddr + count * 4096 - 1) as u64)
}

/// Some arena holds the range.
pub open spec fn some_holds_range(arenas: Seq<Arena>, paddr: u64, count: int) -> bool {
    exists|k: int| 0 <= k < arenas.len() && holds_range(#[trigger] arenas[k], paddr, count)
}

/// Free `count` pages from `paddr` on, in the first arena whose range holds
/// them all; `ERR_INVALID_ARGS` when `count` is zero or no arena holds them.
/// An address that is not the start of a page frees nothing but still
/// answers `OK`.
pub fn pmm_free_contiguous(pmm: &mut Pmm, paddr: PAddr, count: usize) -> (r: RxStatus)
    requires
        old(pmm).wf(),
        count >= 1 && old(pmm).arenas().len() >= 1 ==> paddr + count * 4096 <= u64::MAX,
    ensures
        final(pmm).wf(),
        (count == 0 || !some_holds_range(old(pmm).arenas(), paddr, count as int)) ==> r
            == RxStatus::ERR_INVALID_ARGS && final(pmm).arenas() == old(pmm).arenas(),
        (count >= 1 && some_holds_range(old(pmm).arenas(), paddr, count as int)) ==> r == RxStatus::OK
            && exists|k: int|
            first_holding_range(old(pmm).arenas(), paddr, count as int, k) && only_arena_changed(
                old(pmm).arenas(),
                final(pmm).arenas(),
                k,
            ) && ({
                let off = paddr - old(pmm).arenas()[k].info_of().base;
                range_set(old(pmm).arenas()[k], #[trigger] final(pmm).arenas()[k], off / 4096,
                    count as int, off % 4096 == 0, PageState::Free, false, 0)
            }),
{
    if count == 0 {
        return RxStatus::ERR_INVALID_ARGS;
    }
    let mut k: usize = 0;
    while k < pmm.arenas.len()
        invariant
            pmm.wf(),
            pmm.arenas@ == old(pmm).arenas@,
            count >= 1,
            k <= pmm.arenas@.len(),
            pmm.arenas@.len() >= 1 ==> paddr + count * 4096 <= u64::MAX,
            forall|j: int| 0 <= j < k ==> !holds_range(#[trigger] pmm.arenas@[j], paddr, count as int),
        decreases pmm.arenas@.len() - k,
    {
        assert(pmm.arenas@[k as int].wf());
        let end_addr = paddr + (count as u64) * (PAGE_SIZE as u64);
        if pmm.arenas[k].address_in_arena(paddr) && pmm.arenas[k].address_in_arena(end_addr - 1) {
            let ghost before = pmm.arenas@;
            pmm.arenas[k].free_range(paddr, count);
            proof {
                assert forall|j: int| 0 <= j < pmm.arenas@.len() implies #[trigger] pmm.arenas@[j].wf() by {
                    if j != k {
                        assert(pmm.arenas@[j] == before[j]);
                    }
                }
                assert(first_holding_range(old(pmm).arenas(), paddr, count as int, k as int));
                assert(only_arena_changed(old(pmm).arenas(), pmm.arenas@, k as int));
                let off = paddr - old(pmm).arenas()[k as int].info_of().base;
                assert(range_set(old(pmm).arenas()[k as int], pmm.arenas()[k as int], off / 4096,
                    count as int, off % 4096 == 0, PageState::Free, false, 0));
            }
            return RxStatus::OK;
        }
        k = k + 1;
    }
    RxStatus::ERR_INVALID_ARGS
}

/// Reserve `count` pages from `paddr` on, in the first arena whose range
/// holds them all: each page `(paddr - base) / 4096 + i` that exists becomes
/// reserved, keeping its reference count. `ERR_INVALID_ARGS` when `count` is
/// zero or no arena holds the range.
pub fn pmm_reserve_pages(pmm: &mut Pmm, paddr: PAddr, count: usize) -> (r: RxStatus)
    requires
        old(pmm).wf(),
        count >= 1 && old(pmm).arenas().len() >= 1 ==> paddr + count * 4096 <= u64::MAX,
    ensures
        final(pmm).wf(),
        (count == 0 || !some_holds_range(old(pmm).arenas(), paddr, count as int)) ==> r
            == RxStatus::ERR_INVALID_ARGS && final(pmm).arenas() == old(pmm).arenas(),
        (count >= 1 && some_holds_range(old(pmm).arenas(), paddr, count as int)) ==> r == RxStatus::OK
            && exists|k: int|
            first_holding_range(old(pmm).arenas(), paddr, count as int, k) && only_arena_changed(
                old(pmm).arenas(),
                final(pmm).arenas(),
                k,
            ) && ({
                let off = paddr - old(pmm).arenas()[k].info_of().base;
                range_set(old(pmm).arenas()[k], #[trigger] final(pmm).arenas()[k], off / 4096,
                    count as int, true, PageState::Reserved, true, 0)
            }),
{
    if count == 0 {
        return RxStatus::ERR_INVALID_ARGS;
    }
    let mut k: usize = 0;
    while k < pmm.arenas.len()
        invariant
            pmm.wf(),
            pmm.arenas@ == old(pmm).arenas@,
            count >= 1,
            k <= pmm.arenas@.len(),
            pmm.arenas@.len() >= 1 ==> paddr + count * 4096 <= u64::MAX,
            forall|j: int| 0 <= j < k ==> !holds_range(#[trigger] pmm.arenas@[j], paddr, count as int),
        decreases pmm.arenas@.len() - k,
    {
        assert(pmm.arenas@[k as int].wf());
        let end_addr = paddr + (count as u64) * (PAGE_SIZE as u64);
        if pmm.arenas[k].address_in_arena(paddr) && pmm.arenas[k].address_in_arena(end_addr - 1) {
            let ghost before = pmm.arenas@;
            pmm.arenas[k].reserve_range(paddr, count);
            proof {
                assert forall|j: int| 0 <= j < pmm.arenas@.len() implies #[trigger] pmm.arenas@[j].wf() by {
                    if j != k {
                        assert(pmm.arenas@[j] == before[j]);
                    }
                }
                assert(first_holding_range(old(pmm).arenas(), paddr, count as int, k as int));
                assert(only_arena_changed(old(pmm).arenas(), pmm.arenas@, k as int));
                let off = paddr - old(pmm).arenas()[k as int].info_of().base;
                assert(range_set(old(pmm).arenas()[k as int], pmm.arenas()[k as int], off / 4096,
                    count as int, true, PageState::Reserved, true, 0));
            }
            return RxStatus::OK;
        }
        k = k + 1;
    }
    RxStatus::ERR_INVALID_ARGS
}

/// Free pages over the first `n` arenas.
pub open spec fn total_free(arenas: Seq<Arena>, n: int) -> nat
    decreases n,
{
    if n <= 0 {
        0
    } else {
        total_free(arenas, n - 1) + count_free(&arenas[n - 1], arenas[n - 1].len())
    }
}

/// Pages over the first `n` arenas.
pub open spec fn total_pages(arenas: Seq<Arena>, n: int) -> nat
    decreases n,
{
    if n <= 0 {
        0
    } else {
        total_pages(arenas, n - 1) + arenas[n - 1].len() as nat
    }
}

proof fn lemma_count_free_bound(a: &Arena, k: int)
    requires
        0 <= k,
    ensures
        count_free(a, k) <= k,
    decreases k,
{
    if k > 0 {
        lemma_count_free_bound(a, k - 1);
    }
}

proof fn lemma_arena_len_bound(a: &Arena)
    requires
        a.wf(),
    ensures
        a.len() <= 0x10_0000_0000_0000,
{
    assert(a.info.size / 4096 <= 0x10_0000_0000_0000) by (nonlinear_arith)
        requires
            a.info.size <= 0xffff_ffff_ffff_ffff,
    ;
}

proof fn lemma_totals_bound(p: &Pmm, n: int)
    requires
        p.wf(),
        0 <= n <= p.arenas().len(),
    ensures
        total_free(p.arenas(), n) <= total_pages(p.arenas(), n),
        total_pages(p.arenas(), n) <= n * 0x10_0000_0000_0000,
    decreases n,
{
    if n > 0 {
        lemma_totals_bound(p, n - 1);
        assert(p.arenas@[n - 1].wf());
        lemma_arena_len_bound(&p.arenas@[n - 1]);
        lemma_count_free_bound(&p.arenas@[n - 1], p.arenas@[n - 1].len());
    }
}

/// Number of free pages over all arenas.
pub fn pmm_count_free_pages(pmm: &Pmm) -> (r: u64)
    requires
        pmm.wf(),
    ensures
        r == total_free(pmm.arenas(), pmm.arenas().len() as int),
{
    let mut count: u64 = 0;
    let mut k: usize = 0;
    while k < pmm.arenas.len()
        invariant
            pmm.wf(),
            k <= pmm.arenas@.len(),
            count == total_free(pmm.arenas(), k as int),
        decreases pmm.arenas@.len() - k,
    {
        proof {
            lemma_totals_bound(pmm, k + 1);
            assert(pmm.arenas@[k as int].wf());
        }
        let n = pmm.arenas[k].count_free_pages();
        count = count + n;
        k = k + 1;
    }
    count
}

/// Number of pages over all arenas.
pub fn pmm_count_total_pages(pmm: &Pmm) -> (r: u64)
    requires
        pmm.wf(),
    ensures
        r == total_pages(pmm.arenas(), pmm.arenas().len() as int),
{
    let mut count: u64 = 0;
    let mut k: usize = 0;
    while k < pmm.arenas.len()
        invariant
            pmm.wf(),
            k <= pmm.arenas@.len(),
            count == total_pages(pmm.arenas(), k as int),
        decreases pmm.arenas@.len() - k,
    {
        proof {
            lemma_totals_bound(pmm, k + 1);
            assert(pmm.arenas@[k as int].wf());
        }
        count = count + pmm.arenas[k].total_count;
        k = k + 1;
    }
    count
}

/// Bytes of physical memory over all arenas, in whole pages.
pub fn pmm_count_total_bytes(pmm: &Pmm) -> (r: u64)
    requires
        pmm.wf(),
        total_pages(pmm.arenas(), pmm.arenas().len() as int) * 4096 <= u64::MAX,
    ensures
        r == total_pages(pmm.arenas(), pmm.arenas().len() as int) * 4096,
{
    pmm_count_total_pages(pmm) * (PAGE_SIZE as u64)
}

/// Index of the page of the arena that holds `paddr`.
pub open spec fn page_index_of(a: Arena, paddr: u64) -> int {
    (paddr - a.info_of().base) / 4096
}

/// The arena's range holds `paddr` and the page it falls in exists.
pub open spec fn has_page_for(a: Arena, paddr: u64) -> bool {
    a.contains_addr(paddr) && page_index_of(a, paddr) < a.len()
}

/// Arena `k` is the first whose pages hold `paddr`.
pub open spec fn first_with_page_for(arenas: Seq<Arena>, paddr: u64, k: int) -> bool {
    &&& 0 <= k < arenas.len()
    &&& has_page_for(arenas[k], paddr)
    &&& forall|j: int| 0 <= j < k ==> !has_page_for(#[trigger] arenas[j], paddr)
}

/// The page that holds `paddr`, from the first arena whose pages hold it.
pub fn paddr_to_page(pmm: &Pmm, paddr: PAddr) -> (r: Option<&Page>)
    requires
        pmm.wf(),
    ensures
        r is None <==> forall|k: int| 0 <= k < pmm.arenas().len() ==> !has_page_for(
            #[trigger] pmm.arenas()[k],
            paddr,
        ),
        r matches Some(pg) ==> exists|k: int|
            first_with_page_for(pmm.arenas(), paddr, k) && ({
                let a = #[trigger] pmm.arenas()[k];
                let i = page_index_of(a, paddr);
                &&& pg.paddr == a.info_of().base + i * 4096
                &&& pg.state == a.state(i)
                &&& pg.ref_count == a.refs(i)
                &&& pg.arena_index == k
                &&& pg.page_index == i as u32
            }),
{
    let mut k: usize = 0;
    while k < pmm.arenas.len()
        invariant
            pmm.wf(),
            k <= pmm.arenas@.len(),
            forall|j: int| 0 <= j < k ==> !has_page_for(#[trigger] pmm.arenas@[j], paddr),
        decreases pmm.arenas@.len() - k,
    {
        let arena = &pmm.arenas[k];
        assert(arena.wf());
        if arena.address_in_arena(paddr) {
            let offset = paddr - arena.info.base;
            let index = offset / (PAGE_SIZE as u64);
            if index < arena.total_count {
                let pg = &arena.pages[index as usize];
                assert(first_with_page_for(pmm.arenas(), paddr, k as int));
                assert(pmm.arenas()[k as int] == *arena);
                return Some(pg);
            }
        }
        k = k + 1;
    }
    None
}

/// Virtual address of kernel-zone physical memory: identity below
/// `IDENTITY_MAP_LIMIT`, the direct map above.
pub fn paddr_to_vaddr(paddr: PAddr) -> (r: VAddr)
    requires
        paddr >= IDENTITY_MAP_LIMIT ==> KERNEL_PHYS_OFFSET + paddr <= u64::MAX,
    ensures
        r == phys_to_virt(paddr),
{
    if paddr < IDENTITY_MAP_LIMIT {
        paddr as VAddr
    } else {
        (KERNEL_PHYS_OFFSET + paddr) as VAddr
    }
}

/// Virtual address of user-zone physical memory: always through the
/// kernel's direct map at `KERNEL_PHYS_OFFSET`, never the identity map.
pub fn paddr_to_vaddr_user_zone(paddr: PAddr) -> (r: VAddr)
    requires
        KERNEL_PHYS_OFFSET + paddr <= u64::MAX,
    ensures
        r == (KERNEL_PHYS_OFFSET + paddr) as usize,
{
    (KERNEL_PHYS_OFFSET + paddr) as VAddr
}

/// Identity below `IDENTITY_MAP_LIMIT`, offset by `KERNEL_PHYS_OFFSET` above.
pub open spec fn phys_to_virt(paddr: u64) -> usize {
    if paddr < IDENTITY_MAP_LIMIT {
        paddr as usize
    } else {
        (KERNEL_PHYS_OFFSET + paddr) as usize
    }
}

/// The contiguous allocator's zone filter: only a low-memory request is
/// restricted, to low-memory arenas.
pub open spec fn low_zone_matches(flags: u32, arena_flags: u32) -> bool {
    flags == PMM_ALLOC_FLAG_LOW_MEM ==> arena_flags & ARENA_FLAG_LOW_MEM != 0
}

/// The arena passes the filter and has a run of `count` free pages.
pub open spec fn can_serve_run(a: Arena, flags: u32, count: int) -> bool {
    low_zone_matches(flags, a.info_of().flags) && has_free_run(a, count)
}

/// Arena `k` is the first that can serve a run of `count` pages.
pub open spec fn first_serving_run(arenas: Seq<Arena>, flags: u32, count: int, k: int) -> bool {
    &&& 0 <= k < arenas.len()
    &&& can_serve_run(arenas[k], flags, count)
    &&& forall|j: int| 0 <= j < k ==> !can_serve_run(#[trigger] arenas[j], flags, count)
}

/// `after` is `before` with the first run of `count` free pages allocated,
/// and `addr` is the start of that run.
pub open spec fn allocated_first_run(before: Arena, after: Arena, count: int, addr: u64) -> bool {
    let s = (addr - before.info_of().base) / 4096;
    &&& addr == before.info_of().base + s * 4096
    &&& is_first_free_run(before, s, count)
    &&& range_set(before, after, s, count, true, PageState::Allocated, false, 1)
}

/// Allocate `count` physically contiguous pages.
///
/// `ERR_INVALID_ARGS` for zero pages; one page is allocated as by
/// `pmm_alloc_page`. For more, the first arena (filtered by the low-memory
/// flag only) that holds a run of `count` free pages gives up its first such
/// run; `ERR_NO_MEMORY` when none does. The alignment is not used.
pub fn pmm_alloc_contiguous(pmm: &mut Pmm, count: usize, flags: u32, align_log2: u8) -> (r:
    RxResult<PAddr>)
    requires
        old(pmm).wf(),
    ensures
        final(pmm).wf(),
        count == 0 ==> r == Err::<PAddr, RxStatus>(RxStatus::ERR_INVALID_ARGS) && final(pmm).arenas()
            == old(pmm).arenas(),
        count == 1 ==> page_alloc_outcome(old(pmm).arenas(), final(pmm).arenas(), flags, r),
        count >= 2 ==> {
            &&& r is Err <==> forall|k: int| 0 <= k < old(pmm).arenas().len() ==> !can_serve_run(
                #[trigger] old(pmm).arenas()[k],
                flags,
                count as int,
            )
            &&& r is Err ==> r == Err::<PAddr, RxStatus>(RxStatus::ERR_NO_MEMORY) && final(pmm).arenas()
                == old(pmm).arenas()
            &&& r matches Ok(addr) ==> exists|k: int|
                first_serving_run(old(pmm).arenas(), flags, count as int, k) && only_arena_changed(
                    old(pmm).arenas(),
                    final(pmm).arenas(),
                    k,
                ) && allocated_first_run(
                    old(pmm).arenas()[k],
                    #[trigger] final(pmm).arenas()[k],
                    count as int,
                    addr,
                )
        },
{
    if count == 0 {
        return Err(RxStatus::ERR_INVALID_ARGS);
    }
    if count == 1 {
        return pmm_alloc_page(pmm, flags);
    }
    let mut k: usize = 0;
    while k < pmm.arenas.len()
        invariant
            pmm.wf(),
            pmm.arenas@ == old(pmm).arenas@,
            count >= 2,
            k <= pmm.arenas@.len(),
            forall|j: int| 0 <= j < k ==> !can_serve_run(#[trigger] pmm.arenas@[j], flags, count as int),
        decreases pmm.arenas@.len() - k,
    {
        assert(pmm.arenas@[k as int].wf());
        let arena_flags = pmm.arenas[k].info.flags;
        if !(flags == PMM_ALLOC_FLAG_LOW_MEM && (arena_flags & ARENA_FLAG_LOW_MEM) == 0) {
            match pmm.arenas[k].find_free_run(count) {
                Some(first) => {
                    let ghost before = pmm.arenas@;
                    let base = pmm.arenas[k].info.base;
                    proof {
                        let a = pmm.arenas@[k as int];
                        assert(base + first * 4096 <= u64::MAX) by (nonlinear_arith)
                            requires
                                first < a.info.size / 4096,
                                base == a.info.base,
                                a.info.base + a.info.size <= u64::MAX,
                        ;
                    }
                    let addr = base + (first as u64) * (PAGE_SIZE as u64);
                    pmm.arenas[k].allocate_run(first, count);
                    proof {
                        assert((addr - base) / 4096 == first as int) by (nonlinear_arith)
                            requires
                                addr == base + first * 4096,
                        ;
                        assert forall|j: int| 0 <= j < pmm.arenas@.len() implies #[trigger] pmm.arenas@[j].wf() by {
                            if j != k {
                                assert(pmm.arenas@[j] == before[j]);
                            }
                        }
                        assert(first_serving_run(old(pmm).arenas(), flags, count as int, k as int));
                        assert(only_arena_changed(old(pmm).arenas(), pmm.arenas@, k as int));
                        assert(allocated_first_run(
                            old(pmm).arenas()[k as int],
                            pmm.arenas()[k as int],
                            count as int,
                            addr,
                        ));
                    }
                    return Ok(addr);
                },
                None => {},
            }
        }
        k = k + 1;
    }
    Err(RxStatus::ERR_NO_MEMORY)
}

impl Pmm {
    /// Every arena of a well-formed manager is well formed.
    pub proof fn lemma_arenas_wf(&self)
        requires
            self.wf(),
        ensures
            forall|k: int| 0 <= k < self.arenas().len() ==> (#[trigger] self.arenas()[k]).wf(),
    {
    }
}

/// The two arenas have the same description and the same page states and
/// reference counts.
pub open spec fn same_pages(a: Arena, b: Arena) -> bool {
    &&& a.info_of() == b.info_of()
    &&& a.len() == b.len()
    &&& forall|j: int| 0 <= j < a.len() ==> a.state(j) == b.state(j) && a.refs(j) == b.refs(j)
}

/// No two arenas' address ranges overlap.
pub open spec fn arenas_disjoint(arenas: Seq<Arena>) -> bool {
    forall|i: int, j: int|
        0 <= i < arenas.len() && 0 <= j < arenas.len() && i != j ==> (#[trigger] arenas[i]).info_of().base
            + arenas[i].info_of().size <= (#[trigger] arenas[j]).info_of().base || arenas[j].info_of().base
            + arenas[j].info_of().size <= arenas[i].info_of().base
}

proof fn lemma_page_index_of_multiple(base: u64, p: int)
    requires
        0 <= p,
    ensures
        (p * 4096) % 4096 == 0,
        (p * 4096) / 4096 == p,
{
    assert((p * 4096) % 4096 == 0 && (p * 4096) / 4096 == p) by (nonlinear_arith)
        requires
            0 <= p,
    ;
}

/// Law: freeing the page an allocation took gives the arena back the page
/// states and reference counts it had before the allocation.
pub proof fn lemma_free_undoes_alloc(before: Arena, mid: Arena, after: Arena, addr: u64)
    requires
        before.wf(),
        allocated_first_free(before, mid, addr),
        freed(mid, after, addr),
    ensures
        same_pages(before, after),
        is_page_of(mid, addr),
{
    let p = (addr - before.info_of().base) / 4096;
    lemma_page_index_of_multiple(addr, p);
    assert(addr - mid.info_of().base == p * 4096);
    assert(is_page_of(mid, addr));
    before.lemma_free_unreferenced(p);
}

/// An allocated page lies inside its arena's address range.
proof fn lemma_allocated_in_range(before: Arena, mid: Arena, addr: u64)
    requires
        before.wf(),
        allocated_first_free(before, mid, addr),
    ensures
        before.contains_addr(addr),
{
    let p = (addr - before.info_of().base) / 4096;
    let size = before.info_of().size;
    assert(p * 4096 + 4096 <= size) by (nonlinear_arith)
        requires
            0 <= p < size / 4096,
    ;
}

/// Law: with arenas that do not overlap, freeing the address a one-page
/// allocation returned succeeds and gives every arena back the page states
/// and reference counts it had before the allocation.
pub proof fn lemma_pmm_free_undoes_alloc(
    a0: Seq<Arena>,
    a1: Seq<Arena>,
    a2: Seq<Arena>,
    flags: u32,
    addr: u64,
    r: RxStatus,
)
    requires
        forall|k: int| 0 <= k < a0.len() ==> (#[trigger] a0[k]).wf(),
        arenas_disjoint(a0),
        page_alloc_outcome(a0, a1, flags, Ok(addr)),
        page_free_outcome(a1, a2, addr, r),
    ensures
        r == RxStatus::OK,
        a2.len() == a0.len(),
        forall|k: int| 0 <= k < a0.len() ==> same_pages(#[trigger] a0[k], a2[k]),
{
    let k = choose|k: int|
        first_serving(a0, flags, k) && only_arena_changed(a0, a1, k) && allocated_first_free(
            a0[k],
            #[trigger] a1[k],
            addr,
        );
    lemma_allocated_in_range(a0[k], a1[k], addr);
    assert(a1[k].contains_addr(addr));
    assert(some_contains(a1, addr));
    let k2 = choose|k2: int|
        first_containing(a1, addr, k2) && only_arena_changed(a1, a2, k2) && freed_at(
            a1[k2],
            #[trigger] a2[k2],
            addr,
            r,
        );
    if k2 != k {
        assert(a1[k2] == a0[k2]);
        assert(a0[k2].contains_addr(addr));
        assert(false);
    }
    lemma_free_undoes_alloc(a0[k], a1[k], a2[k], addr);
    assert forall|j: int| 0 <= j < a0.len() implies same_pages(#[trigger] a0[j], a2[j]) by {
        if j != k {
            assert(a1[j] == a0[j]);
            assert(a2[j] == a1[j]);
        }
    }
}

proof fn lemma_count_free_page_set(before: Arena, after: Arena, p: int, s: PageState, rc: u32, n: int)
    requires
        page_set(before, after, p, s, rc),
        0 <= p < before.len(),
        0 <= n <= before.len(),
    ensures
        count_free(&after, n) == count_free(&before, n) - (if p < n && before.state(p) == PageState::Free {
            1int
        } else {
            0int
        }) + (if p < n && s == PageState::Free {
            1int
        } else {
            0int
        }),
    decreases n,
{
    if n > 0 {
        lemma_count_free_page_set(before, after, p, s, rc, n - 1);
    }
}

proof fn lemma_total_free_one_changed(a0: Seq<Arena>, a1: Seq<Arena>, k: int, n: int)
    requires
        only_arena_changed(a0, a1, k),
        0 <= k < a0.len(),
        0 <= n <= a0.len(),
    ensures
        total_free(a1, n) == total_free(a0, n) + (if k < n {
            count_free(&a1[k], a1[k].len()) - count_free(&a0[k], a0[k].len())
        } else {
            0int
        }),
    decreases n,
{
    if n > 0 {
        lemma_total_free_one_changed(a0, a1, k, n - 1);
        if n - 1 != k {
            assert(a1[n - 1] == a0[n - 1]);
        }
    }
}

/// Law: a successful one-page allocation leaves exactly one free page
/// fewer over all arenas.
pub proof fn lemma_alloc_takes_one_free_page(a0: Seq<Arena>, a1: Seq<Arena>, flags: u32, addr: u64)
    requires
        page_alloc_outcome(a0, a1, flags, Ok(addr)),
    ensures
        total_free(a1, a1.len() as int) + 1 == total_free(a0, a0.len() as int),
{
    let k = choose|k: int|
        first_serving(a0, flags, k) && only_arena_changed(a0, a1, k) && allocated_first_free(
            a0[k],
            #[trigger] a1[k],
            addr,
        );
    let p = (addr - a0[k].info_of().base) / 4096;
    lemma_count_free_page_set(a0[k], a1[k], p, PageState::Allocated, 1, a0[k].len());
    lemma_total_free_one_changed(a0, a1, k, a0.len() as int);
}

/// Law: with arenas that do not overlap, two successive one-page
/// allocations never hand out the same page.
pub proof fn lemma_alloc_twice_distinct(
    a0: Seq<Arena>,
    a1: Seq<Arena>,
    a2: Seq<Arena>,
    f1: u32,
    f2: u32,
    addr1: u64,
    addr2: u64,
)
    requires
        forall|k: int| 0 <= k < a0.len() ==> (#[trigger] a0[k]).wf(),
        arenas_disjoint(a0),
        page_alloc_outcome(a0, a1, f1, Ok(addr1)),
        page_alloc_outcome(a1, a2, f2, Ok(addr2)),
    ensures
        addr1 != addr2,
{
    let k1 = choose|k: int|
        first_serving(a0, f1, k) && only_arena_changed(a0, a1, k) && allocated_first_free(
            a0[k],
            #[trigger] a1[k],
            addr1,
        );
    let k2 = choose|k: int|
        first_serving(a1, f2, k) && only_arena_changed(a1, a2, k) && allocated_first_free(
            a1[k],
            #[trigger] a2[k],
            addr2,
        );
    lemma_allocated_in_range(a0[k1], a1[k1], addr1);
    if addr1 == addr2 {
        if k1 == k2 {
            let p = (addr1 - a0[k1].info_of().base) / 4096;
            assert(a1[k1].state(p) == PageState::Allocated);
            assert(false);
        } else {
            assert(a1[k2] == a0[k2]);
            lemma_allocated_in_range(a0[k2], a2[k2], addr2);
            assert(false);
        }
    }
}

/// Law: a page that a one-page allocation hands out lies in one of the
/// arenas it was taken from.
pub proof fn lemma_allocated_page_in_arena(a0: Seq<Arena>, a1: Seq<Arena>, flags: u32, addr: u64)
    requires
        forall|k: int| 0 <= k < a0.len() ==> (#[trigger] a0[k]).wf(),
        page_alloc_outcome(a0, a1, flags, Ok(addr)),
    ensures
        exists|k: int| 0 <= k < a0.len() && (#[trigger] a0[k]).contains_addr(addr),
{
    let k = choose|k: int|
        first_serving(a0, flags, k) && only_arena_changed(a0, a1, k) && allocated_first_free(
            a0[k],
            #[trigger] a1[k],
            addr,
        );
    lemma_allocated_in_range(a0[k], a1[k], addr);
}

} // verus!
