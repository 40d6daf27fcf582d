//! ARM64 translation tables: levels, descriptors and attribute flags.

use vstd::prelude::*;

verus! {

/// Physical address type.
pub type PAddr = u64;

/// ARM64 page size (4 KiB).
pub const ARM64_PAGE_SIZE: usize = 4096;

/// ARM64 page size shift.
pub const ARM64_PAGE_SHIFT: usize = 12;

/// Virtual address bits (48-bit VMSA).
pub const ARM64_VA_BITS: usize = 48;

/// Physical address bits.
pub const ARM64_PA_BITS: usize = 40;

/// Largest virtual address.
pub const ARM64_MAX_VA: u64 = 0xFFFF_FFFF_FFFF;

/// Largest physical address.
pub const ARM64_MAX_PA: u64 = 0xFF_FFFF_FFFF;

/// Output-address bits of a descriptor (bits 12..47).
pub const OUTPUT_ADDRESS_MASK: u64 = 0x0000_FFFF_FFFF_F000;

/// Translation table level.
#[derive(Debug, Clone, Copy, PartialEq, Eq, Structural)]
pub enum PageTableLevel {
    /// Level 0 (512 GiB regions)
    L0,
    /// Level 1 (1 GiB blocks)
    L1,
    /// Level 2 (2 MiB blocks)
    L2,
    /// Level 3 (4 KiB pages)
    L3,
}

impl PageTableLevel {
    /// Address shift of each level.
    pub open spec fn shift_of(l: PageTableLevel) -> usize {
        match l {
            PageTableLevel::L0 => 39,
            PageTableLevel::L1 => 30,
            PageTableLevel::L2 => 21,
            PageTableLevel::L3 => 12,
        }
    }

    /// The address shift for this level.
    pub fn shift(&self) -> (r: usize)
        ensures
            r == Self::shift_of(*self),
    {
        match self {
            PageTableLevel::L0 => 39,
            PageTableLevel::L1 => 30,
            PageTableLevel::L2 => 21,
            PageTableLevel::L3 => 12,
        }
    }

    /// Entries per table at this level.
    pub fn num_entries(&self) -> (r: usize)
        ensures
            r == 512,
    {
        512
    }

    /// Descriptor size in bytes.
    pub fn descriptor_size(&self) -> (r: usize)
        ensures
            r == 8,
    {
        8
    }
}

/// Law: each level covers 9 more address bits than the next (512 entries).
pub proof fn lemma_level_shifts()
    ensures
        PageTableLevel::shift_of(PageTableLevel::L0) == PageTableLevel::shift_of(PageTableLevel::L1) + 9,
        PageTableLevel::shift_of(PageTableLevel::L1) == PageTableLevel::shift_of(PageTableLevel::L2) + 9,
        PageTableLevel::shift_of(PageTableLevel::L2) == PageTableLevel::shift_of(PageTableLevel::L3) + 9,
        PageTableLevel::shift_of(PageTableLevel::L3) == ARM64_PAGE_SHIFT,
{
}

/// A translation table descriptor.
#[derive(Debug, Clone, Copy, PartialEq, Eq, Structural)]
pub struct PageTableDescriptor(pub u64);

/// Descriptor attribute flags.
#[derive(Debug, Clone, Copy, PartialEq, Eq, Structural)]
pub struct DescriptorFlags(pub u64);

impl PageTableDescriptor {
    /// Invalid descriptor.
    pub const INVALID: u64 = 0;
    /// Block descriptor.
    pub const BLOCK: u64 = 0x1;
    /// Table descriptor.
    pub const TABLE: u64 = 0x3;
    /// Page descriptor.
    pub const PAGE: u64 = 0x3;

    /// A block descriptor mapping `output_address` with `flags`.
    pub fn block(output_address: u64, flags: DescriptorFlags) -> (r: PageTableDescriptor)
        ensures
            r.0 == output_address | flags.0,
    {
        PageTableDescriptor(output_address | flags.0)
    }

    /// A table descriptor pointing at the next-level table.
    pub fn table(next_table_address: u64) -> (r: PageTableDescriptor)
        ensures
            r.0 == next_table_address | 3,
    {
        PageTableDescriptor(next_table_address | 0x3)
    }

    /// A page descriptor mapping `output_address` with `flags`.
    pub fn page(output_address: u64, flags: DescriptorFlags) -> (r: PageTableDescriptor)
        ensures
            r.0 == output_address | flags.0,
    {
        PageTableDescriptor(output_address | flags.0)
    }

    /// Whether the valid bit is set.
    pub fn is_valid(&self) -> (r: bool)
        ensures
            r == (self.0 & 1 != 0),
    {
        self.0 & 0x1 != 0
    }

    /// Whether the descriptor is a table descriptor: type bits 0b11.
    pub fn is_table(&self) -> (r: bool)
        ensures
            r == (self.0 & 3 == 3),
    {
        self.0 & 0x3 == 0x3
    }

    /// The output address (bits 12..47).
    pub fn output_address(&self) -> (r: u64)
        ensures
            r == self.0 & OUTPUT_ADDRESS_MASK,
    {
        self.0 & OUTPUT_ADDRESS_MASK
    }
}

impl DescriptorFlags {
    /// No flags.
    pub const NONE: u64 = 0;
    /// Block descriptor.
    pub const BLOCK: u64 = 0x1;
    /// Access flag.
    pub const AF: u64 = 0x400;
    /// Inner shareable.
    pub const SH_INNER: u64 = 0;
    /// Outer shareable.
    pub const SH_OUTER: u64 = 0x200;
    /// Shareability field.
    pub const SH: u64 = 0x300;
    /// Read-only.
    pub const AP_RO: u64 = 0;
    /// Read-write.
    pub const AP_RW: u64 = 0x40;
    /// Read-write at EL0.
    pub const AP_RW_EL0: u64 = 0x40;
    /// Read-only at EL0.
    pub const AP_RO_EL0: u64 = 0xC0;
    /// User (EL0) access.
    pub const AP_USER: u64 = 0x40;
    /// Non-global.
    pub const NG: u64 = 0x800;
    /// Contiguous hint.
    pub const CONTIGUOUS: u64 = 0x10_0000_0000_0000;
    /// Privileged execute-never.
    pub const PXN: u64 = 0x20_0000_0000_0000;
    /// Unprivileged execute-never.
    pub const UXN: u64 = 0x40_0000_0000_0000;
    /// Execute-never.
    pub const XN: u64 = 0x40_0000_0000_0000;
    /// Dirty bit modifier.
    pub const DBM: u64 = 0x8_0000_0000_0000;
    /// Kernel memory: BLOCK | AF | SH_INNER | AP_RW | PXN.
    pub const KERNEL: u64 = 0x20_0000_0000_0441;
    /// User memory: BLOCK | AF | SH_OUTER | AP_USER | UXN.
    pub const USER: u64 = 0x40_0000_0000_0641;

    /// The raw block descriptor for kernel memory at `output_address`.
    pub fn kernel_block(output_address: u64) -> (r: u64)
        ensures
            r == output_address | Self::KERNEL,
    {
        PageTableDescriptor::block(output_address, DescriptorFlags(Self::KERNEL)).0
    }
}

/// The named flag sets are the unions of their parts.
pub proof fn lemma_flag_sets()
    ensures
        DescriptorFlags::KERNEL == DescriptorFlags::BLOCK | DescriptorFlags::AF
            | DescriptorFlags::SH_INNER | DescriptorFlags::AP_RW | DescriptorFlags::PXN,
        DescriptorFlags::USER == DescriptorFlags::BLOCK | DescriptorFlags::AF
            | DescriptorFlags::SH_OUTER | DescriptorFlags::AP_USER | DescriptorFlags::UXN,
{
    assert(0x1u64 | 0x400u64 | 0u64 | 0x40u64 | 0x20_0000_0000_0000u64 == 0x20_0000_0000_0441u64)
        by (bit_vector);
    assert(0x1u64 | 0x400u64 | 0x200u64 | 0x40u64 | 0x40_0000_0000_0000u64
        == 0x40_0000_0000_0641u64) by (bit_vector);
}

/// Law: a block descriptor built from a page-aligned address is valid when
/// its flags are, and reads back that address when the flags carry no
/// address bits.
pub proof fn lemma_block_roundtrip(addr: u64, flags: u64)
    requires
        addr & !OUTPUT_ADDRESS_MASK == 0,
        flags & OUTPUT_ADDRESS_MASK == 0,
    ensures
        (addr | flags) & OUTPUT_ADDRESS_MASK == addr,
        (addr | flags) & 1 == flags & 1,
{
    assert((addr | flags) & 0x0000_FFFF_FFFF_F000u64 == addr && (addr | flags) & 1u64 == flags & 1u64)
        by (bit_vector)
        requires
            addr & !0x0000_FFFF_FFFF_F000u64 == 0,
            flags & 0x0000_FFFF_FFFF_F000u64 == 0,
    ;
}

/// An ARM64 translation table.
pub struct PageTable {
    pub phys: u64,
    pub virt: usize,
    pub level: PageTableLevel,
}

impl PageTable {
    /// Create a table record.
    pub fn new(phys: u64, virt: usize, level: PageTableLevel) -> (r: PageTable)
        ensures
            r.phys == phys && r.virt == virt && r.level == level,
    {
        PageTable { phys, virt, level }
    }

    /// The level.
    pub fn level(&self) -> (r: PageTableLevel)
        ensures
            r == self.level,
    {
        self.level
    }

    /// The physical address.
    pub fn phys(&self) -> (r: u64)
        ensures
            r == self.phys,
    {
        self.phys
    }

    /// The virtual address.
    pub fn virt(&self) -> (r: usize)
        ensures
            r == self.virt,
    {
        self.virt
    }
}

/// Translation context of an address space.
pub struct TranslationContext {
    pub root_table: u64,
    pub root_table_virt: usize,
    /// Next address space id to hand out
    pub asid: u16,
}

impl TranslationContext {
    /// Create a context; ids start at 0.
    pub fn new(root_table: u64, root_table_virt: usize) -> (r: TranslationContext)
        ensures
            r.root_table == root_table && r.root_table_virt == root_table_virt && r.asid == 0,
    {
        TranslationContext { root_table, root_table_virt, asid: 0 }
    }

    /// Root table physical address.
    pub fn root_table(&self) -> (r: u64)
        ensures
            r == self.root_table,
    {
        self.root_table
    }

    /// Root table virtual address.
    pub fn root_table_virt(&self) -> (r: usize)
        ensures
            r == self.root_table_virt,
    {
        self.root_table_virt
    }

    /// Hand out the next address space id (wrapping at 2^16).
    pub fn alloc_asid(&mut self) -> (r: u16)
        ensures
            r == old(self).asid,
            final(self).asid == (if old(self).asid == u16::MAX { 0 } else { (old(self).asid + 1) as u16 }),
            final(self).root_table == old(self).root_table,
            final(self).root_table_virt == old(self).root_table_virt,
    {
        let a = self.asid;
        self.asid = self.asid.wrapping_add(1);
        a
    }

    /// Release an address space id; ids are not tracked, so nothing changes.
    pub fn free_asid(&self, asid: u16) {
        let _ = asid;
    }
}

} // verus!
