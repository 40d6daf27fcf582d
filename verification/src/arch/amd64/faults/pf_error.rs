//! Bits of the page fault error code.

use vstd::prelude::*;

verus! {

/// Page present
pub const P: u64 = 0x1;
/// Write access
pub const W: u64 = 0x2;
/// User mode
pub const U: u64 = 0x4;
/// Reserved bit set
pub const RSV: u64 = 0x8;
/// Instruction fetch
pub const I: u64 = 0x10;
/// Protection key violation
pub const PK: u64 = 0x20;
/// SGX violation
pub const SGX: u64 = 0x8000;

} // verus!
