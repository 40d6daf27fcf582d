//! Local and I/O APIC register writes.
//!
//! Each function returns the memory-mapped writes to perform, in order; the
//! caller performs them.

use vstd::prelude::*;

verus! {

/// Default local APIC base.
pub const LOCAL_APIC_DEFAULT_BASE: u64 = 0xFEE0_0000;

/// Default I/O APIC base.
pub const IOAPIC_DEFAULT_BASE: u64 = 0xFEC0_0000;

/// Offset of the spurious interrupt vector register.
pub const LAPIC_SVR_OFFSET: u64 = 0x70;

/// Offset of the end-of-interrupt register.
pub const LAPIC_EOI_OFFSET: u64 = 0x40;

/// Offset of the I/O APIC register select.
pub const IOAPIC_IOREGSEL: u64 = 0x00;

/// Offset of the I/O APIC data window.
pub const IOAPIC_IOWIN: u64 = 0x10;

/// A 32-bit write to a memory-mapped register.
#[derive(Debug, Clone, Copy, PartialEq, Eq, Structural)]
pub struct MmioWrite {
    pub addr: u64,
    pub value: u32,
}

/// Layout of the local APIC registers.
#[derive(Debug, Clone, Copy)]
pub struct LocalApicRegisters {
    pub id: u32,
    pub version: u32,
    pub tpr: u32,
    pub eoi: u32,
    pub ldr: u32,
    pub dfr: u32,
    pub svr: u32,
    pub isr: [u32; 8],
    pub tmr: [u32; 8],
    pub irr: [u32; 8],
    pub error_status: u32,
    pub icr_low: u32,
    pub icr_high: u32,
    pub timer_initial: u32,
    pub timer_current: u32,
    pub timer_divide: u32,
}

/// Enable the local APIC with spurious vector 0xFF.
pub fn apic_local_init() -> (w: MmioWrite)
    ensures
        w == (MmioWrite { addr: 0xFEE0_0070, value: 0x1FF }),
{
    assert(0x100u32 | 0xFFu32 == 0x1FFu32) by (bit_vector);
    MmioWrite { addr: LOCAL_APIC_DEFAULT_BASE + LAPIC_SVR_OFFSET, value: 0x100u32 | 0xFFu32 }
}

/// Signal end of interrupt to the local APIC; the IRQ number does not
/// matter.
pub fn apic_send_eoi(irq: u32) -> (w: MmioWrite)
    ensures
        w == (MmioWrite { addr: 0xFEE0_0040, value: 0 }),
{
    MmioWrite { addr: LOCAL_APIC_DEFAULT_BASE + LAPIC_EOI_OFFSET, value: 0 }
}

/// Signal end of interrupt.
pub fn apic_issue_eoi() -> (w: MmioWrite)
    ensures
        w == (MmioWrite { addr: 0xFEE0_0040, value: 0 }),
{
    apic_send_eoi(0)
}

/// Route `irq` to `vector` on CPU 0, unmasked, fixed delivery: select the
/// low word of its redirection entry (register `0x12 + 2 * (irq - 1)`),
/// write the vector, select the high word, write zero.
pub fn apic_io_init(irq: u8, vector: u8) -> (w: [MmioWrite; 4])
    requires
        irq >= 1,
    ensures
        w@ == seq![
            MmioWrite { addr: 0xFEC0_0000, value: (0x12 + 2 * (irq - 1)) as u32 },
            MmioWrite { addr: 0xFEC0_0010, value: vector as u32 },
            MmioWrite { addr: 0xFEC0_0000, value: (0x12 + 2 * (irq - 1) + 1) as u32 },
            MmioWrite { addr: 0xFEC0_0010, value: 0 },
        ],
{
    let redir: u32 = 0x12 + ((irq as u32 - 1) * 2);
    let sel = IOAPIC_DEFAULT_BASE + IOAPIC_IOREGSEL;
    let win = IOAPIC_DEFAULT_BASE + IOAPIC_IOWIN;
    let w = [
        MmioWrite { addr: sel, value: redir },
        MmioWrite { addr: win, value: vector as u32 },
        MmioWrite { addr: sel, value: redir + 1 },
        MmioWrite { addr: win, value: 0 },
    ];
    assert(w@ =~= seq![
        MmioWrite { addr: 0xFEC0_0000, value: (0x12 + 2 * (irq - 1)) as u32 },
        MmioWrite { addr: 0xFEC0_0010, value: vector as u32 },
        MmioWrite { addr: 0xFEC0_0000, value: (0x12 + 2 * (irq - 1) + 1) as u32 },
        MmioWrite { addr: 0xFEC0_0010, value: 0 },
    ]);
    w
}

} // verus!
