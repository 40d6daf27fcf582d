//! Interrupt controller interface.
//!
//! A controller answers each request with the memory-mapped register
//! writes that carry it out, in order; the caller makes them.

use vstd::prelude::*;
use crate::arch::amd64::apic::{apic_io_init, apic_local_init, apic_send_eoi, MmioWrite};

verus! {

/// Operations every interrupt controller offers.
pub trait InterruptController {
    /// Route `irq` to `vector` and unmask it.
    fn enable_irq(&mut self, irq: u8, vector: u8) -> Vec<MmioWrite>
        requires
            irq >= 1,
    ;

    /// Mask `irq`.
    fn disable_irq(&mut self, irq: u8) -> Vec<MmioWrite>;

    /// Signal end of interrupt.
    fn send_eoi(&self, irq: u8) -> Vec<MmioWrite>;

    /// Initialize the controller.
    fn init(&mut self) -> Result<Vec<MmioWrite>, &'static str>;
}

/// Keyboard interrupt line.
pub const KEYBOARD_IRQ: u8 = 1;

/// Vector the keyboard interrupt is routed to.
pub const KEYBOARD_VECTOR: u8 = 33;

/// The I/O APIC writes that route `irq` to `vector` on CPU 0, unmasked.
pub open spec fn route_writes(irq: u8, vector: u8) -> Seq<MmioWrite> {
    seq![
        MmioWrite { addr: 0xFEC0_0000, value: (0x12 + 2 * (irq - 1)) as u32 },
        MmioWrite { addr: 0xFEC0_0010, value: vector as u32 },
        MmioWrite { addr: 0xFEC0_0000, value: (0x12 + 2 * (irq - 1) + 1) as u32 },
        MmioWrite { addr: 0xFEC0_0010, value: 0 },
    ]
}

/// The x86_64 (APIC) interrupt controller state.
pub struct X86_64InterruptController {
    pub enabled: bool,
}

impl X86_64InterruptController {
    /// A controller that has not been initialized.
    pub fn new() -> (r: X86_64InterruptController)
        ensures
            !r.enabled,
    {
        X86_64InterruptController { enabled: false }
    }
}

/// The I/O APIC writes that route `irq` to `vector`, as a list.
pub fn route(irq: u8, vector: u8) -> (w: Vec<MmioWrite>)
    requires
        irq >= 1,
    ensures
        w@ == route_writes(irq, vector),
{
    let a = apic_io_init(irq, vector);
    let mut w: Vec<MmioWrite> = Vec::new();
    w.push(a[0]);
    w.push(a[1]);
    w.push(a[2]);
    w.push(a[3]);
    assert(w@ =~= a@);
    w
}

impl InterruptController for X86_64InterruptController {
    /// Route `irq` through its I/O APIC redirection entry.
    fn enable_irq(&mut self, irq: u8, vector: u8) -> (w: Vec<MmioWrite>)
        ensures
            w@ == route_writes(irq, vector),
            *final(self) == *old(self),
    {
        route(irq, vector)
    }

    /// Masking is not done: no writes.
    fn disable_irq(&mut self, irq: u8) -> (w: Vec<MmioWrite>)
        ensures
            w@.len() == 0,
            *final(self) == *old(self),
    {
        Vec::new()
    }

    /// Write the local APIC's end-of-interrupt register.
    fn send_eoi(&self, irq: u8) -> (w: Vec<MmioWrite>)
        ensures
            w@ == seq![MmioWrite { addr: 0xFEE0_0040, value: 0 }],
    {
        let mut w: Vec<MmioWrite> = Vec::new();
        w.push(apic_send_eoi(0));
        w
    }

    /// Enable the local APIC, route the keyboard interrupt to its vector,
    /// and mark the controller enabled.
    fn init(&mut self) -> (r: Result<Vec<MmioWrite>, &'static str>)
        ensures
            final(self).enabled,
            r matches Ok(w) && w@ == seq![MmioWrite { addr: 0xFEE0_0070, value: 0x1FF }] + route_writes(
                KEYBOARD_IRQ,
                KEYBOARD_VECTOR,
            ),
    {
        let mut w: Vec<MmioWrite> = Vec::new();
        w.push(apic_local_init());
        let mut rest = self.enable_irq(KEYBOARD_IRQ, KEYBOARD_VECTOR);
        w.append(&mut rest);
        self.enabled = true;
        Ok(w)
    }
}

} // verus!
