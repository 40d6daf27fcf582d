//! 16550 register offsets.

use vstd::prelude::*;

verus! {

/// Receive buffer / transmit holding register.
pub const RBR_THR: u16 = 0;
/// Interrupt enable register.
pub const IER: u16 = 1;
/// FIFO control register.
pub const FCR: u16 = 2;
/// Line control register.
pub const LCR: u16 = 3;
/// Modem control register.
pub const MCR: u16 = 4;
/// Line status register.
pub const LSR: u16 = 5;
/// Modem status register.
pub const MSR: u16 = 6;
/// Scratch register.
pub const SCR: u16 = 7;

} // verus!
