use rustux::arch::arm64::interrupt::gic::{GicV2, GicV3, GicVersion};
use rustux::arch::arm64::mm::{
    PageTableLevel, PageTableDescriptor, DescriptorFlags, ARM64_PAGE_SIZE, ARM64_PAGE_SHIFT,
    ARM64_VA_BITS,
};
use rustux::arch::riscv64::interrupt::plic::{
    Plic, PlicIrq, PlicPriority, PlicHartContext, PLIC_MAX_SOURCES,
};

#[test]
fn test_gic_version() {
    assert_eq!(GicVersion::from_raw(0), GicVersion::V2);
    assert_eq!(GicVersion::from_raw(2), GicVersion::V2);
    assert_eq!(GicVersion::from_raw(3), GicVersion::V3);
    assert_eq!(GicVersion::V2.name(), "GICv2");
}

#[test]
fn test_gic_v2_create() {
    let gic = GicV2::new(0x08000000, 0x08010000);
    assert_eq!(gic.gicd_base, 0x08000000);
    assert_eq!(gic.gicc_base, 0x08010000);
}

#[test]
fn test_gic_irq_range() {
    let gic = GicV2::new(0, 0);
    assert!(gic.enable_irq(32, 0).is_ok());
    assert!(gic.enable_irq(31, 0).is_err());
    assert!(gic.enable_irq(1020, 0).is_err());
}

#[test]
fn test_gic_v3_create() {
    let gic = GicV3::new(0x08000000, Some(0x080A0000), 0x08010000);
    assert_eq!(gic.gicd_base, 0x08000000);
    assert_eq!(gic.gicr_base, Some(0x080A0000));
    assert_eq!(gic.gicc_base, 0x08010000);
}

#[test]
fn test_page_sizes() {
    assert_eq!(ARM64_PAGE_SIZE, 4096);
    assert_eq!(ARM64_PAGE_SHIFT, 12);
    assert_eq!(ARM64_VA_BITS, 48);
}

#[test]
fn test_page_table_level() {
    assert_eq!(PageTableLevel::L0.shift(), 39);
    assert_eq!(PageTableLevel::L1.shift(), 30);
    assert_eq!(PageTableLevel::L2.shift(), 21);
    assert_eq!(PageTableLevel::L3.shift(), 12);

    assert_eq!(PageTableLevel::L0.num_entries(), 512);
    assert_eq!(PageTableLevel::L1.num_entries(), 512);
}

#[test]
fn test_descriptor() {
    let flags = DescriptorFlags(DescriptorFlags::KERNEL);
    let desc = PageTableDescriptor::block(0x1000, flags);

    assert!(desc.is_valid());
    assert_eq!(desc.output_address(), 0x1000);
}

#[test]
fn test_descriptor_table_and_page() {
    let table = PageTableDescriptor::table(0x4000);
    assert!(table.is_valid());
    assert!(table.is_table());
    assert_eq!(table.output_address(), 0x4000);
    assert!(PageTableDescriptor::table(0x2000).is_table());

    let invalid = PageTableDescriptor(PageTableDescriptor::INVALID);
    assert!(!invalid.is_valid());
}

#[test]
fn test_plic_irq() {
    let irq = PlicIrq::new(32);
    assert_eq!(irq.into_inner(), 32);
    assert!(irq.is_valid());

    assert!(!PlicIrq(PlicIrq::NONE).is_valid());
    assert!(!PlicIrq::new(0).is_valid());
    assert!(!PlicIrq::new(PLIC_MAX_SOURCES as u32).is_valid());
}

#[test]
fn test_plic_priority() {
    let prio = PlicPriority::new(5);
    assert_eq!(prio.into_inner(), 5);

    assert_eq!(PlicPriority(PlicPriority::MAX).into_inner(), 7);
    assert_eq!(PlicPriority(PlicPriority::MIN).into_inner(), 0);

    assert_eq!(PlicPriority::new(10).into_inner(), 7);
}

#[test]
fn test_plic_create() {
    let plic = Plic::new(0x0C000000);
    assert_eq!(plic.base, 0x0C000000);
}

#[test]
fn test_plic_context() {
    let plic = Plic::new(0x0C000000);
    let context = PlicHartContext::new(0, 1, plic.base);

    assert_eq!(context.hart_id, 0);
    assert_eq!(context.context_id, 1);
}

#[test]
fn test_enable_irq_invalid() {
    let plic = Plic::new(0);
    assert!(plic.enable_irq(0, 0, PlicIrq(PlicIrq::NONE)).is_err());
    assert!(plic.enable_irq(0, 0, PlicIrq::new(PLIC_MAX_SOURCES as u32)).is_err());
}

#[test]
fn test_plic_add_context() {
    let mut plic = Plic::new(0);
    assert!(plic.add_context(0, 0).is_ok());
    assert!(plic.add_context(0, 1).is_ok());

    assert!(plic.get_context(0, 0).is_some());
    assert!(plic.get_context(0, 1).is_some());
    assert!(plic.get_context(1, 0).is_none());
}

/// The kernel and user flag sets are both valid block descriptors with the
/// access flag set, so they share those bits; they differ in what separates
/// kernel from user memory (execute-never side, shareability).
#[test]
fn test_descriptor_flags() {
    assert!(DescriptorFlags::KERNEL != 0);
    assert!(DescriptorFlags::USER != 0);
    assert!(DescriptorFlags::KERNEL != DescriptorFlags::USER);
    // Kernel memory is never executable at EL0, user memory never at EL1.
    assert_ne!(DescriptorFlags::KERNEL & DescriptorFlags::PXN, 0);
    assert_eq!(DescriptorFlags::KERNEL & DescriptorFlags::UXN, 0);
    assert_ne!(DescriptorFlags::USER & DescriptorFlags::UXN, 0);
    assert_eq!(DescriptorFlags::USER & DescriptorFlags::PXN, 0);
    assert_ne!(DescriptorFlags::KERNEL & DescriptorFlags::SH, DescriptorFlags::USER & DescriptorFlags::SH);
}

#[test]
fn test_pte_phys_keeps_bits_up_to_51() {
    let mut e = rustux::arch::amd64::mm::page_tables::PageTableEntry::new(0x3);
    e.set_phys(1 << 44);
    assert_eq!(e.phys(), 1 << 44);
    assert_eq!(e.value & 0xFFF, 0x3);
    e.set_phys(0x000F_FFFF_FFFF_F123);
    assert_eq!(e.phys(), 0x000F_FFFF_FFFF_F000);
}
