//! Verified core logic of a small capability-based kernel: kernel objects,
//! ELF parsing and loading, physical memory management, page-table entry
//! encodings, interrupt-controller bookkeeping and display/keyboard state.

pub mod bytes;
pub mod object;
pub mod exec;
pub mod arch;
pub mod drivers;
pub mod kernel;
pub mod mm;
pub mod acpi;
pub mod fs;
pub mod init;
