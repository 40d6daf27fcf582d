//! x86_64 page table structures and entry encoding.

use vstd::prelude::*;

pub mod mmu_flags;

verus! {

/// Page table entry type (64-bit PTE).
#[allow(non_camel_case_types)]
pub type pt_entry_t = u64;

/// Physical address type.
pub type PAddr = u64;

/// Virtual address type.
pub type VAddr = usize;

/// Page size in bytes.
pub const PAGE_SIZE: usize = 4096;

/// Number of entries per page table.
pub const ENTRIES_PER_PAGE_TABLE: usize = 512;

/// log2 of the page size.
pub const PAGE_SIZE_SHIFT: usize = 12;

/// Physical-address bits of an entry (bits 12..51).
pub const PTE_PHYS_MASK: u64 = 0x000F_FFFF_FFFF_F000;

/// Address bits read and written as a virtual address.
pub const PTE_VADDR_MASK: u64 = 0x0007FFFFFFFFFFF;

/// Levels of the 4-level paging hierarchy.
#[allow(non_camel_case_types)]
#[derive(Debug, Clone, Copy, PartialEq, Eq, PartialOrd, Ord, Structural)]
pub enum PageTableLevel {
    /// Page table (4K pages)
    PT_L,
    /// Page directory (2M pages)
    PD_L,
    /// Page directory pointer table (1G pages)
    PDP_L,
    /// Page map level 4 (top level)
    PML4_L,
}

/// Page table role in a unified address space.
#[derive(Debug, Clone, Copy, PartialEq, Eq, Structural)]
pub enum PageTableRole {
    Independent,
    Restricted,
    Shared,
    Unified,
}

/// Flags used in hardware page tables.
pub type PtFlags = u64;

/// Flags used in intermediate hardware page tables.
pub type IntermediatePtFlags = u64;

/// Status codes.
#[allow(non_camel_case_types)]
#[derive(Debug, Clone, Copy, PartialEq, Eq, Structural)]
pub enum RxStatus {
    OK,
    ERR_INVALID_ARGS,
    ERR_NO_MEMORY,
    ERR_NOT_IMPLEMENTED,
    ERR_ACCESS_DENIED,
    ERR_NOT_FOUND,
    ERR_BUSY,
    ERR_IO,
    ERR_INTERNAL,
    ERR_NOT_SUPPORTED,
}

/// Result type using `RxStatus`.
pub type RxResult<T> = Result<T, RxStatus>;

/// Base of an x86 page table: where it lives and how it is shared.
pub struct X86PageTableBase {
    pub phys: PAddr,
    /// Kernel virtual address of the table (0 when none)
    pub virt: usize,
    pub pages: usize,
    pub role: PageTableRole,
    pub num_references: u32,
}

impl X86PageTableBase {
    /// An empty, independent page table base.
    pub fn new() -> (r: X86PageTableBase)
        ensures
            r.phys == 0 && r.virt == 0 && r.pages == 0,
            r.role == PageTableRole::Independent,
            r.num_references == 0,
    {
        X86PageTableBase { phys: 0, virt: 0, pages: 0, role: PageTableRole::Independent, num_references: 0 }
    }

    /// Physical address of the table.
    pub fn phys(&self) -> (r: PAddr)
        ensures
            r == self.phys,
    {
        self.phys
    }

    /// Virtual address of the table.
    pub fn virt(&self) -> (r: usize)
        ensures
            r == self.virt,
    {
        self.virt
    }

    /// Number of pages allocated for the table.
    pub fn pages(&self) -> (r: usize)
        ensures
            r == self.pages,
    {
        self.pages
    }

    /// Whether the table is restricted.
    pub fn is_restricted(&self) -> (r: bool)
        ensures
            r == (self.role == PageTableRole::Restricted),
    {
        self.role == PageTableRole::Restricted
    }

    /// Whether the table is shared.
    pub fn is_shared(&self) -> (r: bool)
        ensures
            r == (self.role == PageTableRole::Shared),
    {
        self.role == PageTableRole::Shared
    }

    /// Whether the table is unified.
    pub fn is_unified(&self) -> (r: bool)
        ensures
            r == (self.role == PageTableRole::Unified),
    {
        self.role == PageTableRole::Unified
    }

    /// Lock order: unified tables lock after the others.
    pub fn lock_order(&self) -> (r: u32)
        ensures
            r == (if self.role == PageTableRole::Unified { 1u32 } else { 0u32 }),
    {
        if self.is_unified() {
            1
        } else {
            0
        }
    }

    /// Initialize with a context for TLB invalidation; nothing to set up yet.
    pub fn init(&mut self, _ctx: usize) -> (r: RxStatus)
        ensures
            r == RxStatus::OK,
            final(self).phys == old(self).phys && final(self).virt == old(self).virt
                && final(self).pages == old(self).pages && final(self).role == old(self).role,
    {
        RxStatus::OK
    }

    /// Destroy the table: forget its addresses and pages.
    pub fn destroy(&mut self) -> (r: RxStatus)
        ensures
            r == RxStatus::OK,
            final(self).phys == 0 && final(self).virt == 0 && final(self).pages == 0,
            final(self).role == old(self).role,
            final(self).num_references == old(self).num_references,
    {
        self.virt = 0;
        self.phys = 0;
        self.pages = 0;
        RxStatus::OK
    }
}

/// A page table entry.
#[derive(Debug, Clone, Copy, PartialEq, Eq, Structural)]
pub struct PageTableEntry {
    pub value: u64,
}

/// A page table entry (compatibility form).
#[derive(Debug, Clone, Copy, PartialEq, Eq, Structural)]
pub struct PtEntry {
    pub value: u64,
}

impl PageTableEntry {
    /// The all-zero entry.
    pub fn null() -> (r: PageTableEntry)
        ensures
            r.value == 0,
    {
        PageTableEntry { value: 0 }
    }

    /// An entry with the given raw value.
    pub fn new(value: u64) -> (r: PageTableEntry)
        ensures
            r.value == value,
    {
        PageTableEntry { value }
    }

    /// The raw value.
    pub fn raw(&self) -> (r: u64)
        ensures
            r == self.value,
    {
        self.value
    }

    /// Replace the raw value.
    pub fn set(&mut self, value: u64)
        ensures
            final(self).value == value,
    {
        self.value = value;
    }

    /// Whether the present bit is set.
    pub fn is_present(&self) -> (r: bool)
        ensures
            r == (self.value & mmu_flags::X86_MMU_PG_P != 0),
    {
        self.value & mmu_flags::X86_MMU_PG_P != 0
    }

    /// Whether the read/write bit is set.
    pub fn is_writable(&self) -> (r: bool)
        ensures
            r == (self.value & mmu_flags::X86_MMU_PG_RW != 0),
    {
        self.value & mmu_flags::X86_MMU_PG_RW != 0
    }

    /// Whether the user bit is set.
    pub fn is_user(&self) -> (r: bool)
        ensures
            r == (self.value & mmu_flags::X86_MMU_PG_U != 0),
    {
        self.value & mmu_flags::X86_MMU_PG_U != 0
    }

    /// Whether the page-size bit is set (a large page).
    pub fn is_large_page(&self) -> (r: bool)
        ensures
            r == (self.value & mmu_flags::X86_MMU_PG_PS != 0),
    {
        self.value & mmu_flags::X86_MMU_PG_PS != 0
    }

    /// Set the present bit.
    pub fn set_present(&mut self)
        ensures
            final(self).value == old(self).value | mmu_flags::X86_MMU_PG_P,
    {
        self.value = self.value | mmu_flags::X86_MMU_PG_P;
    }

    /// Clear the present bit.
    pub fn clear_present(&mut self)
        ensures
            final(self).value == old(self).value & !mmu_flags::X86_MMU_PG_P,
    {
        self.value = self.value & !mmu_flags::X86_MMU_PG_P;
    }

    /// Set the read/write bit.
    pub fn set_writable(&mut self)
        ensures
            final(self).value == old(self).value | mmu_flags::X86_MMU_PG_RW,
    {
        self.value = self.value | mmu_flags::X86_MMU_PG_RW;
    }

    /// Clear the read/write bit.
    pub fn clear_writable(&mut self)
        ensures
            final(self).value == old(self).value & !mmu_flags::X86_MMU_PG_RW,
    {
        self.value = self.value & !mmu_flags::X86_MMU_PG_RW;
    }

    /// Set the user bit.
    pub fn set_user(&mut self)
        ensures
            final(self).value == old(self).value | mmu_flags::X86_MMU_PG_U,
    {
        self.value = self.value | mmu_flags::X86_MMU_PG_U;
    }

    /// Clear the user bit.
    pub fn clear_user(&mut self)
        ensures
            final(self).value == old(self).value & !mmu_flags::X86_MMU_PG_U,
    {
        self.value = self.value & !mmu_flags::X86_MMU_PG_U;
    }

    /// Set the dirty bit.
    pub fn set_dirty(&mut self)
        ensures
            final(self).value == old(self).value | mmu_flags::X86_MMU_PG_D,
    {
        self.value = self.value | mmu_flags::X86_MMU_PG_D;
    }

    /// The physical address field (bits 12..51).
    pub fn phys(&self) -> (r: PAddr)
        ensures
            r == self.value & PTE_PHYS_MASK,
    {
        self.value & PTE_PHYS_MASK
    }

    /// Replace the physical address field (bits 12..51).
    pub fn set_phys(&mut self, phys: PAddr)
        ensures
            final(self).value == (old(self).value & !PTE_PHYS_MASK) | (phys
                & PTE_PHYS_MASK),
    {
        self.value = self.value & !PTE_PHYS_MASK;
        self.value = self.value | (phys & PTE_PHYS_MASK);
    }

    /// The address bits read as a virtual address.
    pub fn vaddr(&self) -> (r: VAddr)
        ensures
            r == (self.value & PTE_VADDR_MASK) as usize,
    {
        (self.value & PTE_VADDR_MASK) as usize
    }

    /// Replace the address bits with those of a virtual address.
    pub fn set_vaddr(&mut self, vaddr: VAddr)
        ensures
            final(self).value == (old(self).value & !PTE_VADDR_MASK) | ((vaddr as u64)
                & PTE_VADDR_MASK),
    {
        self.value = self.value & !PTE_VADDR_MASK;
        self.value = self.value | ((vaddr as u64) & PTE_VADDR_MASK);
    }
}

/// Bit facts about entry updates.
proof fn lemma_pte_bits(v: u64, p: u64)
    by (bit_vector)
    ensures
        (v | 1u64) & 1u64 != 0,
        (v & !1u64) & 1u64 == 0,
        (v | 2u64) & 2u64 != 0,
        (v & !2u64) & 2u64 == 0,
        (v | 4u64) & 4u64 != 0,
        (v & !4u64) & 4u64 == 0,
        (v | 1u64) & !1u64 == v & !1u64,
        (((v & !0x000F_FFFF_FFFF_F000u64) | (p & 0x000F_FFFF_FFFF_F000u64)) & 0x000F_FFFF_FFFF_F000u64)
            == p & 0x000F_FFFF_FFFF_F000u64,
        ((v & !0x000F_FFFF_FFFF_F000u64) | (p & 0x000F_FFFF_FFFF_F000u64)) & 0xFFFu64 == v & 0xFFFu64,
{
}

/// Laws of the entry encoding: setting a flag makes it read back as set,
/// clearing it makes it read back as clear, and setting the physical
/// address keeps the low flag bits and reads back the written address bits
/// (bits 12..51).
pub proof fn lemma_pte_roundtrip(v: u64, p: u64)
    ensures
        (v | mmu_flags::X86_MMU_PG_P) & mmu_flags::X86_MMU_PG_P != 0,
        (v & !mmu_flags::X86_MMU_PG_P) & mmu_flags::X86_MMU_PG_P == 0,
        (v | mmu_flags::X86_MMU_PG_RW) & mmu_flags::X86_MMU_PG_RW != 0,
        (v & !mmu_flags::X86_MMU_PG_RW) & mmu_flags::X86_MMU_PG_RW == 0,
        (v | mmu_flags::X86_MMU_PG_U) & mmu_flags::X86_MMU_PG_U != 0,
        (v & !mmu_flags::X86_MMU_PG_U) & mmu_flags::X86_MMU_PG_U == 0,
        ((v & !PTE_PHYS_MASK) | (p & PTE_PHYS_MASK)) & 0xFFF == v & 0xFFF,
        ((v & !PTE_PHYS_MASK) | (p & PTE_PHYS_MASK)) & PTE_PHYS_MASK == p & PTE_PHYS_MASK,
{
    lemma_pte_bits(v, p);
}

/// Zero the first `page_count` entries of a page table.
pub fn init_page_table(table: &mut [u64], page_count: usize)
    requires
        page_count <= old(table)@.len(),
    ensures
        final(table)@.len() == old(table)@.len(),
        forall|i: int| 0 <= i < page_count ==> final(table)@[i] == 0,
        forall|i: int| page_count <= i < old(table)@.len() ==> final(table)@[i] == old(table)@[i],
{
    let mut i: usize = 0;
    while i < page_count
        invariant
            i <= page_count,
            page_count <= table@.len(),
            table@.len() == old(table)@.len(),
            forall|j: int| 0 <= j < i ==> table@[j] == 0,
            forall|j: int| i <= j < old(table)@.len() ==> table@[j] == old(table)@[j],
        decreases page_count - i,
    {
        table[i] = 0;
        i = i + 1;
    }
}

/// Zero a page.
pub fn zero_page(page: &mut [u8])
    requires
        old(page)@.len() >= PAGE_SIZE,
    ensures
        final(page)@.len() == old(page)@.len(),
        forall|i: int| 0 <= i < PAGE_SIZE ==> final(page)@[i] == 0,
        forall|i: int| PAGE_SIZE <= i < old(page)@.len() ==> final(page)@[i] == old(page)@[i],
{
    let mut i: usize = 0;
    while i < PAGE_SIZE
        invariant
            i <= PAGE_SIZE,
            PAGE_SIZE <= page@.len(),
            page@.len() == old(page)@.len(),
            forall|j: int| 0 <= j < i ==> page@[j] == 0,
            forall|j: int| i <= j < old(page)@.len() ==> page@[j] == old(page)@[j],
        decreases PAGE_SIZE - i,
    {
        page[i] = 0;
        i = i + 1;
    }
}

} // verus!
