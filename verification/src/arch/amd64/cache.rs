//! Cache maintenance: which cache lines a range covers.
//!
//! The flushes themselves are left to the caller, which issues one
//! `clflush` per address returned.

use vstd::prelude::*;

verus! {

/// Cache line size in bytes from CPUID leaf 1's EBX: bits 15..8, in units
/// of 8 bytes.
pub fn clflush_line_size(ebx: u32) -> (r: u32)
    ensures
        r == ((ebx >> 8u32) & 0xFF) * 8,
{
    assert((ebx >> 8u32) & 0xFF <= 0xFF) by (bit_vector);
    ((ebx >> 8u32) & 0xFF) * 8
}

/// First line address of a flush: `start` with its low bits cleared.
pub open spec fn first_line(start: usize, line: usize) -> int {
    (start & !((line - 1) as usize)) as int
}

/// Line addresses to clean and invalidate for `[start, start + len)`, lines
/// of `line` bytes: from `start` with the low bits cleared, every `line`
/// bytes, while below the end.
pub fn arch_clean_invalidate_cache_range(start: usize, len: usize, line: usize) -> (r: Vec<usize>)
    requires
        line > 0,
        start + len + line <= usize::MAX,
    ensures
        forall|k: int| 0 <= k < r@.len() ==> #[trigger] r@[k] == first_line(start, line) + k * line,
        forall|k: int| 0 <= k < r@.len() ==> #[trigger] r@[k] < start + len,
        first_line(start, line) + r@.len() * line >= start + len,
{
    let end = start + len;
    let mut ptr = start & !(line - 1);
    assert(start & !((line - 1) as usize) <= start) by (bit_vector);
    let mut lines: Vec<usize> = Vec::new();
    while ptr < end
        invariant
            line > 0,
            end == start + len,
            end + line <= usize::MAX,
            ptr == first_line(start, line) + lines@.len() * line,
            forall|k: int| 0 <= k < lines@.len() ==> #[trigger] lines@[k] == first_line(start, line) + k * line,
            forall|k: int| 0 <= k < lines@.len() ==> #[trigger] lines@[k] < end,
        decreases (if ptr < end { end - ptr } else { 0 }),
    {
        lines.push(ptr);
        ptr = ptr + line;
        assert(ptr == first_line(start, line) + lines@.len() * line) by (nonlinear_arith)
            requires
                ptr == first_line(start, line) + (lines@.len() - 1) * line + line,
        ;
    }
    lines
}

/// Line addresses to clean for a range: the same lines as for clean and
/// invalidate.
pub fn arch_clean_cache_range(start: usize, len: usize, line: usize) -> (r: Vec<usize>)
    requires
        line > 0,
        start + len + line <= usize::MAX,
    ensures
        forall|k: int| 0 <= k < r@.len() ==> #[trigger] r@[k] == first_line(start, line) + k * line,
        forall|k: int| 0 <= k < r@.len() ==> #[trigger] r@[k] < start + len,
        first_line(start, line) + r@.len() * line >= start + len,
{
    arch_clean_invalidate_cache_range(start, len, line)
}

/// Invalidate the caches for `[start, start + len)`: nothing to do on
/// x86, whose instruction cache snoops stores.
pub fn arch_invalidate_cache_range(start: usize, len: usize) {
}

} // verus!
