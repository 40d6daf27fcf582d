//! Little-endian integer decoding from byte slices.

use vstd::prelude::*;

verus! {

/// The little-endian 16-bit value at `off`.
pub open spec fn le16(s: Seq<u8>, off: int) -> int {
    s[off] + s[off + 1] * 256
}

/// The little-endian 32-bit value at `off`.
pub open spec fn le32(s: Seq<u8>, off: int) -> int {
    le16(s, off) + le16(s, off + 2) * 65536
}

/// The little-endian 64-bit value at `off`.
pub open spec fn le64(s: Seq<u8>, off: int) -> int {
    le32(s, off) + le32(s, off + 4) * 0x1_0000_0000
}

/// Read a little-endian `u16` at `off`.
pub fn read_u16_le(data: &[u8], off: usize) -> (r: u16)
    requires
        off + 2 <= data.len(),
    ensures
        r == le16(data@, off as int),
{
    let b0 = data[off];
    let b1 = data[off + 1];
    assert((b0 as u16) | ((b1 as u16) << 8u16) == (b0 as u16) + (b1 as u16) * 256) by (bit_vector);
    (b0 as u16) | ((b1 as u16) << 8u16)
}

/// Read a little-endian `u32` at `off`.
pub fn read_u32_le(data: &[u8], off: usize) -> (r: u32)
    requires
        off + 4 <= data.len(),
    ensures
        r == le32(data@, off as int),
{
    let lo = read_u16_le(data, off);
    let hi = read_u16_le(data, off + 2);
    assert((lo as u32) | ((hi as u32) << 16u32) == (lo as u32) + (hi as u32) * 65536) by (bit_vector);
    (lo as u32) | ((hi as u32) << 16u32)
}

/// Read a little-endian `u64` at `off`.
pub fn read_u64_le(data: &[u8], off: usize) -> (r: u64)
    requires
        off + 8 <= data.len(),
    ensures
        r == le64(data@, off as int),
{
    let lo = read_u32_le(data, off);
    let hi = read_u32_le(data, off + 4);
    assert((lo as u64) | ((hi as u64) << 32u64) == (lo as u64) + (hi as u64) * 0x1_0000_0000) by (bit_vector);
    (lo as u64) | ((hi as u64) << 32u64)
}

} // verus!
