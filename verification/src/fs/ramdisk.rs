//! Ramdisk file entries and file error numbers.

use vstd::prelude::*;

verus! {

/// An entry of the ramdisk's file table.
#[derive(Debug, Clone, Copy, PartialEq, Eq, Structural)]
pub struct RamdiskFile {
    /// Offset of the file name in the ramdisk image
    pub name_offset: u32,
    /// Offset of the file data in the ramdisk image
    pub data_offset: u32,
    /// File size in bytes
    pub size: u32,
    pub _pad: u32,
}

/// File error numbers.
#[derive(Debug, Clone, Copy, PartialEq, Eq, Structural)]
pub enum Errno {
    /// No such file
    ENOENT,
    /// Invalid argument
    EINVAL,
    /// Read-only file system
    EROFS,
    /// No such device
    ENODEV,
}

} // verus!
