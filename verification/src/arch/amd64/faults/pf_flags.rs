//! Page fault flags handed to the virtual memory layer.

use vstd::prelude::*;

verus! {

pub const WRITE: u32 = 0x1;
pub const USER: u32 = 0x2;
pub const INSTRUCTION: u32 = 0x4;
pub const NOT_PRESENT: u32 = 0x8;

} // verus!
