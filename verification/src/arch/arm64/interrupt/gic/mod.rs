//! ARM Generic Interrupt Controller (GICv2, GICv3) bookkeeping.
//!
//! Shared peripheral interrupts (SPIs) are numbered 32..1019.

use vstd::prelude::*;
use crate::arch::arm64::mm::PAddr;

pub mod gicd_offset;
pub mod gicc_offset;

verus! {

/// Smallest SPI number.
pub const GIC_SPI_FIRST: u32 = 32;

/// One past the largest SPI number.
pub const GIC_SPI_END: u32 = 1020;

/// Whether `irq` is a shared peripheral interrupt.
pub open spec fn is_spi(irq: u32) -> bool {
    32 <= irq < 1020
}

/// GICv2 controller.
pub struct GicV2 {
    pub gicd_base: PAddr,
    pub gicc_base: PAddr,
    pub num_irq: usize,
    pub num_cpus: usize,
}

impl GicV2 {
    /// Create a GICv2 controller at the given distributor and CPU-interface
    /// addresses.
    pub fn new(gicd_base: PAddr, gicc_base: PAddr) -> (r: GicV2)
        ensures
            r.gicd_base == gicd_base && r.gicc_base == gicc_base,
            r.num_irq == 0 && r.num_cpus == 0,
    {
        GicV2 { gicd_base, gicc_base, num_irq: 0, num_cpus: 0 }
    }

    /// Initialize the controller; not supported yet.
    pub fn init(&self) -> (r: Result<(), &'static str>)
        ensures
            r == Err::<(), &'static str>("GIC initialization not yet implemented"),
    {
        Err("GIC initialization not yet implemented")
    }

    /// The set-enable register and bit that control `irq`.
    fn enable_register(irq: u32) -> (r: (usize, u32))
        requires
            irq < 1020,
        ensures
            r.0 == gicd_offset::ISENABLER + (irq as int / 32) * 4,
            r.1 == irq % 32,
    {
        (gicd_offset::ISENABLER + (irq as usize / 32) * 4, irq % 32)
    }

    /// Enable an SPI for a target CPU.
    pub fn enable_irq(&self, irq: u32, cpu: u32) -> (r: Result<(), &'static str>)
        ensures
            is_spi(irq) ==> r is Ok,
            !is_spi(irq) ==> r == Err::<(), &'static str>("IRQ out of range"),
    {
        if irq < GIC_SPI_FIRST || irq >= GIC_SPI_END {
            return Err("IRQ out of range");
        }
        let _ = Self::enable_register(irq);
        let _ = cpu;
        Ok(())
    }

    /// Disable an SPI.
    pub fn disable_irq(&self, irq: u32) -> (r: Result<(), &'static str>)
        ensures
            is_spi(irq) ==> r is Ok,
            !is_spi(irq) ==> r == Err::<(), &'static str>("IRQ out of range"),
    {
        if irq < GIC_SPI_FIRST || irq >= GIC_SPI_END {
            return Err("IRQ out of range");
        }
        Ok(())
    }

    /// Signal end of interrupt.
    pub fn eoi(&self, irq: u32) {
        let _ = irq;
    }

    /// The highest-priority pending interrupt; none is tracked.
    pub fn get_pending(&self) -> (r: Option<u32>)
        ensures
            r is None,
    {
        None
    }

    /// Number of IRQ lines.
    pub fn num_irq(&self) -> (r: usize)
        ensures
            r == self.num_irq,
    {
        self.num_irq
    }

    /// Number of CPUs.
    pub fn num_cpus(&self) -> (r: usize)
        ensures
            r == self.num_cpus,
    {
        self.num_cpus
    }
}

/// GICv3 controller.
pub struct GicV3 {
    pub gicd_base: PAddr,
    pub gicr_base: Option<PAddr>,
    pub gicc_base: PAddr,
    pub num_irq: usize,
}

impl GicV3 {
    /// Create a GICv3 controller.
    pub fn new(gicd_base: PAddr, gicr_base: Option<PAddr>, gicc_base: PAddr) -> (r: GicV3)
        ensures
            r.gicd_base == gicd_base && r.gicr_base == gicr_base && r.gicc_base == gicc_base,
            r.num_irq == 0,
    {
        GicV3 { gicd_base, gicr_base, gicc_base, num_irq: 0 }
    }

    /// Initialize the controller; not supported yet.
    pub fn init(&self) -> (r: Result<(), &'static str>)
        ensures
            r == Err::<(), &'static str>("GICv3 initialization not yet implemented"),
    {
        Err("GICv3 initialization not yet implemented")
    }

    /// Enable an IRQ; not supported yet.
    pub fn enable_irq(&self, irq: u32, cpu: u32) -> (r: Result<(), &'static str>)
        ensures
            r == Err::<(), &'static str>("not implemented"),
    {
        let _ = (irq, cpu);
        Err("not implemented")
    }

    /// Disable an IRQ; not supported yet.
    pub fn disable_irq(&self, irq: u32) -> (r: Result<(), &'static str>)
        ensures
            r == Err::<(), &'static str>("not implemented"),
    {
        let _ = irq;
        Err("not implemented")
    }

    /// Signal end of interrupt.
    pub fn eoi(&self, irq: u32) {
        let _ = irq;
    }
}

/// GIC architecture version.
#[derive(Debug, Clone, Copy, PartialEq, Eq, Structural)]
pub enum GicVersion {
    V1,
    V2,
    V3,
    V4,
}

impl GicVersion {
    /// Raw number of each version.
    pub open spec fn raw_of(v: GicVersion) -> u32 {
        match v {
            GicVersion::V1 => 1,
            GicVersion::V2 => 2,
            GicVersion::V3 => 3,
            GicVersion::V4 => 4,
        }
    }

    /// Version from a raw number; unknown numbers give V2.
    pub fn from_raw(raw: u32) -> (r: GicVersion)
        ensures
            1 <= raw <= 4 ==> Self::raw_of(r) == raw,
            !(1 <= raw <= 4) ==> r == GicVersion::V2,
    {
        match raw {
            1 => GicVersion::V1,
            2 => GicVersion::V2,
            3 => GicVersion::V3,
            4 => GicVersion::V4,
            _ => GicVersion::V2,
        }
    }

    /// The raw number.
    pub fn into_raw(self) -> (r: u32)
        ensures
            r == Self::raw_of(self),
    {
        match self {
            GicVersion::V1 => 1,
            GicVersion::V2 => 2,
            GicVersion::V3 => 3,
            GicVersion::V4 => 4,
        }
    }

    /// The version's name.
    pub fn name(self) -> (r: &'static str)
        ensures
            r == (match self {
                GicVersion::V1 => "GICv1",
                GicVersion::V2 => "GICv2",
                GicVersion::V3 => "GICv3",
                GicVersion::V4 => "GICv4",
            }),
    {
        match self {
            GicVersion::V1 => "GICv1",
            GicVersion::V2 => "GICv2",
            GicVersion::V3 => "GICv3",
            GicVersion::V4 => "GICv4",
        }
    }
}

/// Law: a version converted to its number and back is unchanged.
pub proof fn lemma_gic_version_roundtrip(v: GicVersion)
    ensures
        1 <= GicVersion::raw_of(v) <= 4,
{
}

/// A controller built from discovered GIC information.
pub enum GicController {
    V2(GicV2),
    V3(GicV3),
}

/// GIC information discovered from firmware tables.
#[derive(Debug)]
pub struct GicInfo {
    pub version: GicVersion,
    pub gicd_base: PAddr,
    pub gicr_base: Option<PAddr>,
    pub gicc_base: PAddr,
}

impl GicInfo {
    /// Create GIC information.
    pub fn new(version: GicVersion, gicd_base: PAddr, gicr_base: Option<PAddr>, gicc_base: PAddr) -> (r: GicInfo)
        ensures
            r.version == version && r.gicd_base == gicd_base && r.gicr_base == gicr_base
                && r.gicc_base == gicc_base,
    {
        GicInfo { version, gicd_base, gicr_base, gicc_base }
    }

    /// Build the matching controller; not supported yet.
    pub fn create_controller(&self) -> (r: Result<GicController, &'static str>)
        ensures
            r == Err::<GicController, &'static str>("GIC controller creation not yet implemented"),
    {
        Err("GIC controller creation not yet implemented")
    }
}

} // verus!
