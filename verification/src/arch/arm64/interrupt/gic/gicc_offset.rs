//! GICv2 CPU interface register offsets.

use vstd::prelude::*;

verus! {

/// Control register.
pub const CTLR: usize = 0x000;
/// Priority mask register.
pub const PMR: usize = 0x004;
/// Binary point register.
pub const BPR: usize = 0x008;
/// Interrupt acknowledge register.
pub const IAR: usize = 0x00C;
/// End of interrupt register.
pub const EOIR: usize = 0x010;
/// Running priority register.
pub const RPR: usize = 0x014;
/// Highest priority pending interrupt register.
pub const HPPIR: usize = 0x018;
/// End of interrupt register 1.
pub const EOIR1: usize = 0x0C0;

} // verus!
