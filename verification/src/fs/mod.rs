//! File system: ramdisk file entries and the file operations over them.

pub mod ramdisk;
pub mod vfs;
