//! x86_64 page table entry flag bits.

use vstd::prelude::*;

verus! {

/// Present flag: the page is mapped.
pub const X86_MMU_PG_P: u64 = 0x0001;
/// Read/write flag.
pub const X86_MMU_PG_RW: u64 = 0x0002;
/// User/supervisor flag.
pub const X86_MMU_PG_U: u64 = 0x0004;
/// Write-through cache flag.
pub const X86_MMU_PG_WT: u64 = 0x0008;
/// Cache-disable flag.
pub const X86_MMU_PG_CD: u64 = 0x0010;
/// Accessed flag.
pub const X86_MMU_PG_A: u64 = 0x0020;
/// Dirty flag.
pub const X86_MMU_PG_D: u64 = 0x0040;
/// Page-size flag (1 = 2M/1G page).
pub const X86_MMU_PG_PS: u64 = 0x0080;
/// Global flag.
pub const X86_MMU_PG_G: u64 = 0x0100;
/// PAT flag for 4K pages.
pub const X86_MMU_PG_PTE_PAT: u64 = 0x0080;
/// PAT flag for large pages.
pub const X86_MMU_PG_LARGE_PAT: u64 = 0x1000;
/// EPT execute flag.
pub const X86_EPT_X: u64 = 0x00000001;
/// EPT read flag.
pub const X86_EPT_R: u64 = 0x00000002;
/// EPT write flag.
pub const X86_EPT_W: u64 = 0x00000004;
/// EPT write-back memory type.
pub const X86_EPT_WB: u64 = 0x00000006;
/// EPT execute-disable.
pub const X86_EPT_EXECUTE_DISABLE: u64 = 0x00000001;
/// EPT uncacheable memory type.
pub const X86_EPT_UNCACHEABLE: u64 = 0x00000000;
/// EPT memory type mask (bits 3..5).
pub const X86_EPT_MEMORY_TYPE_MASK: u64 = 0x38;
/// EPT write-back caching.
pub const X86_EPT_WRITE_BACK: u64 = 0x6;
/// EPT write-combining caching.
pub const X86_EPT_WRITE_COMBINING: u64 = 0;

} // verus!
