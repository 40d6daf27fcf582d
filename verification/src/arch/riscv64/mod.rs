//! RISC-V 64 support.

use vstd::prelude::*;

pub mod interrupt;

verus! {

/// RISC-V interrupt controller front end.
pub struct Riscv64InterruptController {
    pub enabled: bool,
}

impl Riscv64InterruptController {
    /// A controller that is not yet enabled.
    pub fn new() -> (r: Riscv64InterruptController)
        ensures
            !r.enabled,
    {
        Riscv64InterruptController { enabled: false }
    }
}

} // verus!
