use rustux::acpi::madt::{find_and_parse_madt, parse_madt, MadtEntryType, MADT_SIGNATURE};
use rustux::acpi::rsdt::{find_table_in_rsdt, verify_sdt_checksum, RsdtIterator, SDTHeader};
use rustux::arch::amd64::apic::{apic_io_init, apic_issue_eoi, apic_local_init, MmioWrite};
use rustux::kernel::interrupt::{InterruptController, X86_64InterruptController};
use rustux::arch::amd64::cache::{arch_clean_cache_range, clflush_line_size};
use rustux::arch::amd64::faults::{
    is_user_address, page_fault_flags, x86_dump_pfe, x86_exception_handler, x86_fatal_pfe_handler,
    x86_nmi_handler, x86_pfe_handler, FaultOutcome,
};
use rustux::arch::amd64::faults::exception_vector;
use rustux::arch::amd64::mmu::{is_kernel_address, x86_is_vaddr_canonical_impl};
use rustux::drivers::display::console::ConsoleSlot;
use rustux::drivers::display::framebuffer::{Framebuffer, PixelFormat};
use rustux::drivers::keyboard::layout::{KeyEvent, ModifierState, SpecialKey};
use rustux::drivers::keyboard::{irq_action, IrqAction, KeyboardDriver, ScancodeStep};
use rustux::fs::ramdisk::{Errno, RamdiskFile};
use rustux::fs::vfs::{FileOps, RamdiskFileOps, Whence};
use rustux::init::{begin_kernel_init, decimal_digits, hex_digits, BootAllocator, InitState};

fn with_checksum(mut t: Vec<u8>) -> Vec<u8> {
    let sum: u8 = t.iter().fold(0u8, |a, b| a.wrapping_add(*b));
    t[9] = t[9].wrapping_sub(sum);
    t
}

fn sdt(signature: &[u8; 4], body: &[u8]) -> Vec<u8> {
    let len = (36 + body.len()) as u32;
    let mut t = vec![0u8; 36];
    t[0..4].copy_from_slice(signature);
    t[4..8].copy_from_slice(&len.to_le_bytes());
    t[8] = 1;
    t[10..16].copy_from_slice(b"OEMID ");
    t.extend_from_slice(body);
    with_checksum(t)
}

fn sample_madt() -> Vec<u8> {
    let mut body = Vec::new();
    body.extend_from_slice(&0xFEE0_0000u32.to_le_bytes());
    body.extend_from_slice(&1u32.to_le_bytes());
    // local APIC: processor 0, APIC id 0, enabled
    body.extend_from_slice(&[0, 8, 0, 0, 1, 0, 0, 0]);
    // I/O APIC: id 2, address 0xFEC00000, GSI base 0
    body.extend_from_slice(&[1, 12, 2, 0, 0x00, 0x00, 0xC0, 0xFE, 0, 0, 0, 0]);
    // unknown entry type 9 of length 4
    body.extend_from_slice(&[9, 4, 0, 0]);
    // override: ISA IRQ 0 -> GSI 2, flags 0
    body.extend_from_slice(&[2, 10, 0, 0, 2, 0, 0, 0, 0, 0]);
    // second I/O APIC at GSI base 24
    body.extend_from_slice(&[1, 12, 3, 0, 0x00, 0x10, 0xC0, 0xFE, 24, 0, 0, 0]);
    sdt(&MADT_SIGNATURE, &body)
}

#[test]
fn test_sdt_header_and_checksum() {
    let t = sdt(b"TEST", &[1, 2, 3]);
    let h = SDTHeader::parse(&t).unwrap();
    assert_eq!(&h.signature, b"TEST");
    assert_eq!(h.length, 39);
    assert_eq!(&h.oem_id, b"OEMID ");
    assert!(verify_sdt_checksum(&t, h.length));
    let mut bad = t.clone();
    bad[37] ^= 1;
    assert!(!verify_sdt_checksum(&bad, h.length));
    assert!(SDTHeader::parse(&t[..35]).is_none());
}

#[test]
fn test_parse_madt_entries() {
    let t = sample_madt();
    let m = parse_madt(&t).unwrap();
    assert_eq!(m.local_apic_address, 0xFEE0_0000);
    assert_eq!(m.flags, 1);
    assert_eq!(m.local_apic_count, 1);
    assert_eq!(m.local_apics[0].flags, 1);
    assert_eq!(m.io_apic_count, 2);
    assert_eq!(m.override_count, 1);
    assert_eq!(m.overrides[0].gsi, 2);
    assert_eq!(m.first_ioapic_address(), Some(0xFEC0_0000));
    assert_eq!(m.find_ioapic_for_gsi(5).unwrap().io_apic_id, 2);
    assert_eq!(m.find_ioapic_for_gsi(30).unwrap().io_apic_id, 3);
    assert!(m.find_ioapic_for_gsi(48).is_none());
}

#[test]
fn test_parse_madt_malformed() {
    let mut t = sample_madt();
    // a zero entry length would never advance
    t[45] = 0;
    assert!(parse_madt(&t).is_none());
    assert!(parse_madt(&t[..40]).is_none());
}

#[test]
fn test_find_table_in_rsdt() {
    let madt = sample_madt();
    let other = sdt(b"FACP", &[]);
    let mut body = Vec::new();
    body.extend_from_slice(&0x1000u32.to_le_bytes());
    body.extend_from_slice(&0x2000u32.to_le_bytes());
    let rsdt = sdt(b"RSDT", &body);
    let mut it = RsdtIterator::new(&rsdt);
    assert_eq!(it.next(), Some(0x1000));
    assert_eq!(it.next(), Some(0x2000));
    assert_eq!(it.next(), None);
    let tables = vec![other.clone(), madt.clone()];
    assert_eq!(find_table_in_rsdt(&rsdt, &MADT_SIGNATURE, &tables), Some(1));
    assert_eq!(find_table_in_rsdt(&rsdt, b"FACP", &tables), Some(0));
    assert_eq!(find_table_in_rsdt(&rsdt, b"HPET", &tables), None);
    let parsed = find_and_parse_madt(&rsdt, &tables).unwrap();
    assert_eq!(parsed.io_apic_count, 2);
    let mut bad_rsdt = rsdt.clone();
    bad_rsdt[0] = b'X';
    assert_eq!(find_table_in_rsdt(&bad_rsdt, &MADT_SIGNATURE, &tables), None);
}

#[test]
fn test_madt_entry_type_codes() {
    assert_eq!(MadtEntryType::from_raw(1), Some(MadtEntryType::IoApic));
    assert_eq!(MadtEntryType::from_raw(16), None);
    assert_eq!(MadtEntryType::GicIts.into_raw(), 15);
}

#[test]
fn test_fault_decoding() {
    assert!(is_user_address(0x1000));
    assert!(!is_user_address(0xffff_8000_0000_0000));
    let r = x86_dump_pfe(0xdead, 0x2 | 0x4);
    assert_eq!(r.access_type, "write");
    assert_eq!(r.mode, "user");
    assert_eq!(r.fetch_type, "data");
    assert_eq!(r.present, "page not present");
    assert_eq!(r.rsv, "");
    assert_eq!(page_fault_flags(0x0), 0x8);
    assert_eq!(page_fault_flags(0x1 | 0x2 | 0x4 | 0x10), 0x7);
    assert_eq!(x86_pfe_handler(0, 0x1, 0x1000), Err(()));
    assert_eq!(x86_fatal_pfe_handler(0, 1).1, FaultOutcome::Halt("fatal page fault, halting\n"));
    assert_eq!(x86_nmi_handler(), FaultOutcome::Resume);
}

#[test]
fn test_exception_dispatch() {
    let (o, report) = x86_exception_handler(exception_vector::PAGE_FAULT, 0, 0x1234);
    assert_eq!(o, FaultOutcome::Halt("fatal page fault, halting\n"));
    assert_eq!(report.unwrap().present, "protection violation");
    assert_eq!(x86_exception_handler(exception_vector::NMI, 0, 0).0, FaultOutcome::Resume);
    assert_eq!(
        x86_exception_handler(exception_vector::DEVICE_NA, 0, 0).0,
        FaultOutcome::Halt("device na fault\n")
    );
    assert_eq!(
        x86_exception_handler(99, 0, 0).0,
        FaultOutcome::Halt("unhandled exception, halting\n")
    );
}

#[test]
fn test_canonical_addresses() {
    assert!(x86_is_vaddr_canonical_impl(0x0000_7fff_ffff_ffff));
    assert!(x86_is_vaddr_canonical_impl(0xffff_8000_0000_0000));
    assert!(!x86_is_vaddr_canonical_impl(0x0000_8000_0000_0000));
    assert!(is_kernel_address(0xffff_8000_0000_0000));
    assert!(!is_kernel_address(0x1000));
}

#[test]
fn test_cache_lines() {
    assert_eq!(clflush_line_size(0x0000_0800), 64);
    assert_eq!(arch_clean_cache_range(100, 100, 64), vec![64, 128, 192]);
    assert_eq!(arch_clean_cache_range(128, 0, 64), Vec::<usize>::new());
}

#[test]
fn test_apic_writes() {
    assert_eq!(apic_local_init(), MmioWrite { addr: 0xFEE0_0070, value: 0x1FF });
    assert_eq!(apic_issue_eoi(), MmioWrite { addr: 0xFEE0_0040, value: 0 });
    let w = apic_io_init(1, 0x21);
    assert_eq!(w[0], MmioWrite { addr: 0xFEC0_0000, value: 0x12 });
    assert_eq!(w[1], MmioWrite { addr: 0xFEC0_0010, value: 0x21 });
    assert_eq!(w[2], MmioWrite { addr: 0xFEC0_0000, value: 0x13 });
    assert_eq!(w[3], MmioWrite { addr: 0xFEC0_0010, value: 0 });
}

#[test]
fn test_whence_values() {
    assert_eq!(Whence::Start as i32, 0);
    assert_eq!(Whence::Cur as i32, 1);
    assert_eq!(Whence::End as i32, 2);
}

#[test]
fn test_ramdisk_file_ops() {
    let file = RamdiskFile { name_offset: 0, data_offset: 32, size: 100, _pad: 0 };

    let mut ops = RamdiskFileOps::new(file);

    assert_eq!(ops.get_offset(), 0);

    let result = ops.seek(0, Whence::End);
    assert!(result.is_ok());
    assert_eq!(result.unwrap(), 100);
}

#[test]
fn test_ramdisk_read_seek_write() {
    let mut image = vec![0u8; 64];
    for (i, b) in image.iter_mut().enumerate() {
        *b = i as u8;
    }
    let file = RamdiskFile { name_offset: 0, data_offset: 16, size: 10, _pad: 0 };
    let mut ops = RamdiskFileOps::new(file);
    let mut buf = [0u8; 4];
    assert_eq!(ops.read(&image, &mut buf), Ok(4));
    assert_eq!(buf, [16, 17, 18, 19]);
    assert_eq!(ops.seek(-2, Whence::End), Ok(8));
    let mut big = [0xAAu8; 8];
    assert_eq!(ops.read(&image, &mut big), Ok(2));
    assert_eq!(big, [24, 25, 0xAA, 0xAA, 0xAA, 0xAA, 0xAA, 0xAA]);
    assert_eq!(ops.read(&image, &mut big), Ok(0));
    assert_eq!(ops.seek(-1, Whence::Start), Err(Errno::EINVAL));
    assert_eq!(ops.get_offset(), 10);
    assert_eq!(ops.seek(50, Whence::Cur), Ok(10));
    assert_eq!(ops.write(&[1]), Err(Errno::EROFS));
}

#[test]
fn test_init_states_and_boot_allocator() {
    assert!(InitState::Early.is_before(InitState::Running));
    assert_eq!(InitState::Complete.into_raw(), 10);
    assert_eq!(begin_kernel_init(InitState::NotStarted), Ok(InitState::Early));
    assert!(begin_kernel_init(InitState::Early).is_err());

    let mut a = BootAllocator::new(64);
    a.init(0x1000);
    assert_eq!(a.allocate(3, 1), Some(0x1000));
    assert_eq!(a.allocate(8, 8), Some(0x1008));
    assert_eq!(a.allocate(64, 8), None);
    assert_eq!(a.allocate(16, 16), Some(0x1010));
}

#[test]
fn test_number_digits() {
    assert_eq!(hex_digits(0), b"0".to_vec());
    assert_eq!(hex_digits(0x1A2F), b"1A2F".to_vec());
    assert_eq!(decimal_digits(0), b"0".to_vec());
    assert_eq!(decimal_digits(12045), b"12045".to_vec());
}

#[test]
fn mod_test_initialized_flag() {
    let kb = KeyboardDriver::new();
    assert!(!kb.is_initialized());
}

#[test]
fn test_modifiers_initial_state() {
    let kb = KeyboardDriver::new();
    assert!(!kb.modifiers.shift());
    assert!(!kb.modifiers.ctrl());
    assert!(!kb.modifiers.alt());
    let m = ModifierState::new();
    assert!(!m.shift() && !m.ctrl() && !m.alt() && !m.caps_lock);
}

#[test]
fn console_test_initialized_flag() {
    let slot = ConsoleSlot::new();
    assert!(!slot.is_initialized());
}

#[test]
fn test_console_slot_operations() {
    let mut slot = ConsoleSlot::new();
    assert!(slot.put_char(b'a').is_empty());
    let fb = Framebuffer::new(0, 64, 32, 256, 32, PixelFormat::RGB);
    slot.init(fb);
    assert!(slot.is_initialized());
    assert_eq!(slot.put_char(b'a').len(), 1);
    assert_eq!(slot.clear().len(), 1);
}

#[test]
fn test_keyboard_driver_events() {
    assert_eq!(irq_action(0x00), IrqAction::NoData);
    assert_eq!(irq_action(0x21), IrqAction::DropMouseData);
    assert_eq!(irq_action(0x01), IrqAction::ReadScancode);

    let mut kb = KeyboardDriver::new();
    kb.init();
    assert!(kb.is_initialized());
    assert_eq!(kb.begin_scancode(0xE0), ScancodeStep::Prefix);
    assert_eq!(kb.begin_scancode(0x1D), ScancodeStep::Key { extended: true });
    assert_eq!(kb.begin_scancode(0x1D), ScancodeStep::Key { extended: false });

    kb.apply_key_event(KeyEvent::Special(SpecialKey::RightCtrl), true);
    kb.apply_key_event(KeyEvent::Special(SpecialKey::LeftCtrl), false);
    assert!(kb.get_modifiers().ctrl());
    kb.apply_key_event(KeyEvent::Release(0x1D), true);
    assert!(!kb.get_modifiers().right_ctrl);
    assert!(kb.get_modifiers().left_ctrl);
    kb.apply_key_event(KeyEvent::Special(SpecialKey::CapsLock), false);
    assert!(kb.get_modifiers().caps_lock);

    kb.apply_key_event(KeyEvent::Ascii(b'h'), false);
    kb.apply_key_event(KeyEvent::Special(SpecialKey::Enter), false);
    kb.apply_key_event(KeyEvent::Special(SpecialKey::ArrowUp), false);
    assert_eq!(kb.available(), 2);
    assert_eq!(kb.read_char(), Some(b'h'));
    assert_eq!(kb.read_char(), Some(b'\n'));
    assert!(!kb.has_data());
    kb.apply_key_event(KeyEvent::Ascii(b'x'), false);
    kb.flush();
    assert_eq!(kb.available(), 0);
}

#[test]
fn test_interrupt_controller_init_routes_keyboard() {
    let mut c = X86_64InterruptController::new();
    assert!(!c.enabled);
    let w = c.init().unwrap();
    assert!(c.enabled);
    assert_eq!(
        w,
        vec![
            MmioWrite { addr: 0xFEE0_0070, value: 0x1FF },
            MmioWrite { addr: 0xFEC0_0000, value: 0x12 },
            MmioWrite { addr: 0xFEC0_0010, value: 33 },
            MmioWrite { addr: 0xFEC0_0000, value: 0x13 },
            MmioWrite { addr: 0xFEC0_0010, value: 0 },
        ]
    );
    assert_eq!(c.send_eoi(1), vec![MmioWrite { addr: 0xFEE0_0040, value: 0 }]);
    assert!(c.disable_irq(1).is_empty());
    assert_eq!(c.enable_irq(4, 36)[0], MmioWrite { addr: 0xFEC0_0000, value: 0x18 });
}

#[test]
fn test_arch_interrupt_controller() {
    let mut c = rustux::arch::amd64::controller::X86_64InterruptController::default();
    assert!(!c.enabled);
    let w = c.init().unwrap();
    assert!(c.enabled);
    assert_eq!(w.len(), 5);
    assert_eq!(c.enable_irq(2, 34)[1], MmioWrite { addr: 0xFEC0_0010, value: 34 });
}
