//! Monotonic identifier allocation for kernel objects.

use vstd::prelude::*;

verus! {

/// The identifier handed out `i` steps after `first` (wrapping at 2^64).
pub open spec fn nth_id(first: u64, i: int) -> u64 {
    ((first as int + i) % 0x1_0000_0000_0000_0000int) as u64
}

/// A counter that hands out object identifiers in increasing order.
///
/// Each object kind (handles, channels, jobs, timers, VMOs) keeps its own
/// counter; the next value is handed out and the counter advances by one,
/// wrapping around at `u64::MAX` as an atomic `fetch_add` does.
pub struct IdAllocator {
    pub next: u64,
}

impl IdAllocator {
    /// Create an allocator whose first identifier is `first`.
    pub fn new(first: u64) -> (r: IdAllocator)
        ensures
            r.next == first,
    {
        IdAllocator { next: first }
    }

    /// Hand out the next identifier.
    pub fn next_id(&mut self) -> (id: u64)
        ensures
            id == old(self).next,
            final(self).next == nth_id(old(self).next, 1),
    {
        let id = self.next;
        self.next = self.next.wrapping_add(1);
        id
    }
}

} // verus!
