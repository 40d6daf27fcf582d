//! Memory management: the physical page allocator.

pub mod pmm;
pub mod allocator;
