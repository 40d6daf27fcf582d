//! The x86_64 interrupt controller (local APIC and I/O APIC) behind the
//! architecture-independent controller operations, with 64-bit interrupt
//! numbers. Each operation answers the register writes that carry it out.

use vstd::prelude::*;
use crate::arch::amd64::apic::{apic_local_init, apic_send_eoi, MmioWrite};
use crate::kernel::interrupt::{route, route_writes};

verus! {

/// The x86_64 interrupt controller state.
pub struct X86_64InterruptController {
    /// Whether it has been initialized
    pub enabled: bool,
}

impl X86_64InterruptController {
    /// A controller that has not been initialized.
    pub fn new() -> (r: X86_64InterruptController)
        ensures
            !r.enabled,
    {
        X86_64InterruptController { enabled: false }
    }

    /// Route `irq` to `vector` (each taken modulo 256) in the I/O APIC.
    pub fn enable_irq(&mut self, irq: u64, vector: u64) -> (w: Vec<MmioWrite>)
        requires
            irq as u8 >= 1,
        ensures
            w@ == route_writes(irq as u8, vector as u8),
            *final(self) == *old(self),
    {
        let i = #[verifier::truncate] (irq as u8);
        let v = #[verifier::truncate] (vector as u8);
        route(i, v)
    }

    /// Masking is not done: no writes.
    pub fn disable_irq(&mut self, irq: u64) -> (w: Vec<MmioWrite>)
        ensures
            w@.len() == 0,
            *final(self) == *old(self),
    {
        Vec::new()
    }

    /// Write the local APIC's end-of-interrupt register.
    pub fn send_eoi(&self, irq: u64) -> (w: Vec<MmioWrite>)
        ensures
            w@ == seq![MmioWrite { addr: 0xFEE0_0040, value: 0 }],
    {
        let mut w: Vec<MmioWrite> = Vec::new();
        w.push(apic_send_eoi(0));
        w
    }

    /// Enable the local APIC, route IRQ 1 (the keyboard) to vector 33, and
    /// mark the controller enabled.
    pub fn init(&mut self) -> (r: Result<Vec<MmioWrite>, &'static str>)
        ensures
            final(self).enabled,
            r matches Ok(w) && w@ == seq![MmioWrite { addr: 0xFEE0_0070, value: 0x1FF }] + route_writes(1, 33),
    {
        let mut w: Vec<MmioWrite> = Vec::new();
        w.push(apic_local_init());
        let mut rest = self.enable_irq(1, 33);
        w.append(&mut rest);
        self.enabled = true;
        Ok(w)
    }
}

impl Default for X86_64InterruptController {
    fn default() -> (r: X86_64InterruptController)
        ensures
            !r.enabled,
    {
        X86_64InterruptController::new()
    }
}

} // verus!
