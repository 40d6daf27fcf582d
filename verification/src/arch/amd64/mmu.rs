//! x86_64 address-space checks.

use vstd::prelude::*;

verus! {

/// Bits 63..47 of a virtual address.
pub const CANONICAL_MASK: u64 = 0xFFFF_8000_0000_0000;

/// Whether a virtual address is canonical: bits 63..47 all clear or all set.
pub fn x86_is_vaddr_canonical_impl(va: usize) -> (r: bool)
    ensures
        r == ((va as u64) & CANONICAL_MASK == 0 || (va as u64) & CANONICAL_MASK == CANONICAL_MASK),
{
    let v = va as u64;
    (v & CANONICAL_MASK) == 0 || (v & CANONICAL_MASK) == CANONICAL_MASK
}

/// Whether an address lies outside the lower half: one of bits 63..47 set.
pub fn is_kernel_address(addr: usize) -> (r: bool)
    ensures
        r == ((addr as u64) & CANONICAL_MASK != 0),
{
    (addr as u64) & CANONICAL_MASK != 0
}

/// Canonical addresses of the lower half are user addresses, those of the
/// upper half kernel addresses.
pub proof fn lemma_canonical_halves(va: u64)
    ensures
        va & CANONICAL_MASK == 0 <==> va < 0x0000_8000_0000_0000,
        va & CANONICAL_MASK == CANONICAL_MASK <==> va >= 0xFFFF_8000_0000_0000,
{
    assert(va & 0xFFFF_8000_0000_0000u64 == 0 <==> va < 0x0000_8000_0000_0000u64) by (bit_vector);
    assert(va & 0xFFFF_8000_0000_0000u64 == 0xFFFF_8000_0000_0000u64 <==> va >= 0xFFFF_8000_0000_0000u64)
        by (bit_vector);
}

} // verus!
