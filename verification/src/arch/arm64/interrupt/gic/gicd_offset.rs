//! GICv2 distributor register offsets.

use vstd::prelude::*;

verus! {

/// Control register.
pub const CTLR: usize = 0x000;
/// Interrupt controller type register.
pub const TYPER: usize = 0x004;
/// Interrupt group registers.
pub const IGROUPR: usize = 0x080;
/// Interrupt set-enable registers.
pub const ISENABLER: usize = 0x100;
/// Interrupt clear-enable registers.
pub const ICENABLER: usize = 0x180;
/// Interrupt set-pending registers.
pub const ISPENDR: usize = 0x200;
/// Interrupt clear-pending registers.
pub const ICPENDR: usize = 0x280;
/// Software generated interrupt register.
pub const SGIR: usize = 0xF00;
/// Interrupt configuration registers.
pub const ICFGR: usize = 0xC00;

} // verus!
