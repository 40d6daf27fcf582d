//! Boot-time bump allocation.

use vstd::prelude::*;

verus! {

/// Page size.
pub const PAGE_SIZE: usize = 4096;

/// A bump allocator over the address range `[start, end)`.
pub struct BumpAllocator {
    start: u64,
    end: u64,
    current: u64,
}

impl BumpAllocator {
    /// Start of the range.
    pub closed spec fn start_of(&self) -> u64 {
        self.start
    }

    /// End of the range.
    pub closed spec fn end_of(&self) -> u64 {
        self.end
    }

    /// Next address to hand out.
    pub closed spec fn current_of(&self) -> u64 {
        self.current
    }

    /// An allocator over `[start, start + size)`.
    pub fn new(start: u64, size: u64) -> (r: Option<BumpAllocator>)
        requires
            start + size <= u64::MAX,
        ensures
            r matches Some(a) && a.start_of() == start && a.end_of() == start + size
                && a.current_of() == start,
    {
        Some(BumpAllocator { start, end: start + size, current: start })
    }

    /// Hand out the next `size` bytes: the current address, which then
    /// moves on by `size`; `None` once the range is used up.
    pub fn allocate(&mut self, size: u64) -> (r: Option<u64>)
        requires
            old(self).current_of() < old(self).end_of() ==> old(self).current_of() + size <= u64::MAX,
        ensures
            final(self).start_of() == old(self).start_of() && final(self).end_of() == old(self).end_of(),
            old(self).current_of() >= old(self).end_of() ==> r is None && final(self).current_of()
                == old(self).current_of(),
            old(self).current_of() < old(self).end_of() ==> r == Some(old(self).current_of())
                && final(self).current_of() == old(self).current_of() + size,
    {
        if self.current >= self.end {
            None
        } else {
            let addr = self.current;
            self.current = self.current + size;
            Some(addr)
        }
    }
}

} // verus!
