//! ARM64 support.

pub mod mm;
pub mod interrupt;
