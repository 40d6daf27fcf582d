//! PLIC register offsets.

use vstd::prelude::*;

verus! {

/// Priority registers (4 bytes per interrupt).
pub const PRIORITY_BASE: usize = 0x0000;
/// Pending registers (1 bit per interrupt).
pub const PENDING_BASE: usize = 0x1000;
/// Enable registers (1 bit per interrupt, per context).
pub const ENABLE_BASE: usize = 0x2000;
/// Threshold/claim registers (per context).
pub const CONTEXT_BASE: usize = 0x200000;
/// Claim/complete register offset within a context.
pub const CLAIM_COMPLETE: usize = 0x04;
/// Threshold register offset within a context.
pub const THRESHOLD: usize = 0x00;

} // verus!
