//! x86_64 support.

pub mod mm;
pub mod faults;
pub mod mmu;
pub mod cache;
pub mod apic;
pub mod init;
pub mod controller;
