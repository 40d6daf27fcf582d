//! Program loading.

pub mod elf;
pub mod process_loader;
