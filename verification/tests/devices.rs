use mmurtl_rs::acpi::{self, IrqOverride, RootTable};
use mmurtl_rs::apic::{self, LocalApic};
use mmurtl_rs::gdt::{set_kernel_stack, KernelStacks};
use mmurtl_rs::interrupts::{self, ExceptionAction, InterruptIndex};
use mmurtl_rs::io::IoOp;
use mmurtl_rs::keyboard::{handle_scancode, pop_char, Keyboard};
use mmurtl_rs::pci::{self, Header, PciConfigAddress, PciDevice};
use mmurtl_rs::smp::{
    self, boot_aps, boot_one_ap, cpus_online, fill_mailbox, install_trampoline, stack_top, ApAction,
    ApPhase, Cpus, Mailbox,
};

fn table(sig: &[u8; 4], body: &[u8]) -> Vec<u8> {
    let mut t = vec![0; 36];
    t[0..4].copy_from_slice(sig);
    t.extend_from_slice(body);
    t
}

#[test]
fn rsdp_names_the_root_table() {
    let mut rsdp = vec![0; 36];
    assert_eq!(acpi::init(&rsdp), None);
    rsdp[0..8].copy_from_slice(b"RSD PTR ");
    rsdp[16..20].copy_from_slice(&0x1234_5678u32.to_le_bytes());
    rsdp[24..32].copy_from_slice(&0x9_8765_4321u64.to_le_bytes());
    assert_eq!(acpi::init(&rsdp), Some(RootTable { addr: 0x1234_5678, entry_size: 4 }));
    rsdp[15] = 2;
    assert_eq!(acpi::init(&rsdp), Some(RootTable { addr: 0x9_8765_4321, entry_size: 8 }));
    rsdp[24..32].copy_from_slice(&[0; 8]);
    assert_eq!(acpi::init(&rsdp), Some(RootTable { addr: 0x1234_5678, entry_size: 4 }));
}

#[test]
fn root_table_lists_tables() {
    let mut body = Vec::new();
    for a in [0x1000u32, 0, 0x2000] {
        body.extend_from_slice(&a.to_le_bytes());
    }
    body.push(9);
    assert_eq!(acpi::listed_tables(&table(b"RSDT", &body), 4), [0x1000, 0x2000]);
    assert_eq!(acpi::listed_tables(&[0; 20], 8), Vec::<u64>::new());
    let sigs = [*b"FACP", *b"APIC"];
    assert_eq!(acpi::find_table(&[0x1000, 0x2000], &sigs, b"APIC"), Some(0x2000));
    assert_eq!(acpi::find_table(&[0x1000, 0x2000], &sigs, b"HPET"), None);
}

fn madt_body(entries: &[&[u8]]) -> Vec<u8> {
    let mut body = 0xFEE0_0000u32.to_le_bytes().to_vec();
    body.extend_from_slice(&[1, 0, 0, 0]);
    for e in entries {
        body.extend_from_slice(e);
    }
    table(b"APIC", &body)
}

#[test]
fn madt_lists_processors_and_routes() {
    let t = madt_body(&[
        &[0, 8, 0, 7, 1, 0, 0, 0],
        &[0, 8, 1, 8, 0, 0, 0, 0],
        &[0, 8, 2, 9, 2, 0, 0, 0],
        &[1, 12, 0, 0, 0, 0, 0xC0, 0xFE, 16, 0, 0, 0],
        &[1, 12, 0, 0, 0, 0, 0xC1, 0xFE, 0, 0, 0, 0],
        &[2, 10, 0, 1, 5, 0, 0, 0, 0x0F, 0],
        &[9, 16, 0, 0, 0, 1, 0, 0, 1, 0, 0, 0, 0, 0, 0, 0],
        &[4, 6, 0xFF, 0, 0, 1],
    ]);
    let (info, found) = acpi::parse_madt(&t);
    assert!(found);
    assert_eq!(info.lapic_base, 0xFEE0_0000);
    assert_eq!(info.cpu_apic_ids, [7, 9, 256]);
    assert_eq!(info.ioapic_base, Some(0xFEC0_0000));
    assert_eq!(info.ioapic_gsi_base, 16);
    assert_eq!(info.overrides, [IrqOverride { source_irq: 1, gsi: 5, flags: 15 }]);
    assert_eq!(info.isa_irq_to_gsi(1), (5, 15));
    assert_eq!(info.isa_irq_to_gsi(4), (4, 0));
    let some = Some(info);
    assert_eq!(acpi::madt(&some).unwrap().cpu_apic_ids.len(), 3);
    assert!(acpi::madt(&None).is_none());
}

#[test]
fn madt_can_move_the_local_apic() {
    let mut entry = vec![5, 12, 0, 0];
    entry.extend_from_slice(&0x1_2345_6000u64.to_le_bytes());
    let info = acpi::try_parse_madt(&madt_body(&[&entry])).unwrap();
    assert_eq!(info.lapic_base, 0x1_2345_6000);
    assert!(info.cpu_apic_ids.is_empty());
    assert_eq!(info.ioapic_base, None);
}

#[test]
fn madt_list_ends_at_a_bad_entry() {
    let t = madt_body(&[&[0, 8, 0, 7, 1, 0, 0, 0], &[0, 0], &[0, 8, 0, 8, 1, 0, 0, 0]]);
    assert_eq!(acpi::try_parse_madt(&t).unwrap().cpu_apic_ids, [7]);
    let t = madt_body(&[&[0, 8, 0, 7, 1, 0, 0, 0], &[0, 99, 0, 8]]);
    assert_eq!(acpi::try_parse_madt(&t).unwrap().cpu_apic_ids, [7]);
    // An entry whose fields run out of the table.
    assert!(acpi::try_parse_madt(&madt_body(&[&[1, 4, 0, 0]])).is_none());
    assert!(acpi::try_parse_madt(&[0; 39]).is_none());
}

const APIC: LocalApic = LocalApic { virt: 0xFEE0_0000, enabled: true, ticks_per_10ms: 625_000 };

#[test]
fn local_apic_base_and_id() {
    assert_eq!(apic::init(0xFEE0_0900, 0), (0xFEE0_0000, None));
    assert_eq!(apic::init(0xFEE0_0100, 0), (0xFEE0_0000, Some(0xFEE0_0900)));
    assert_eq!(apic::init(0x800, 0xFED0_0000), (0xFED0_0000, None));
    assert_eq!(apic::local_apic_id(0x0300_0000), 3);
    assert!(apic::enabled(&APIC));
    assert_eq!(APIC.read_id(), [IoOp::Read32 { addr: 0xFEE0_0020 }]);
    assert_eq!(APIC.eoi(), [IoOp::Write32 { addr: 0xFEE0_00B0, value: 0 }]);
}

#[test]
fn local_apic_is_enabled() {
    let ops = APIC.enable_current_cpu();
    assert_eq!(ops[0], IoOp::Write32 { addr: 0xFEE0_00F0, value: 0x1FF });
    assert_eq!(ops[2], IoOp::Write32 { addr: 0xFEE0_0320, value: 0x1_0000 });
    assert_eq!(ops[5], IoOp::Write32 { addr: 0xFEE0_0370, value: 0xFE });
    assert_eq!(ops.len(), 8);
}

#[test]
fn local_timer_is_calibrated() {
    let mut a = LocalApic { ticks_per_10ms: 0, ..APIC };
    assert_eq!(a.calibrate_timer()[2], IoOp::Write32 { addr: 0xFEE0_0380, value: 0xFFFF_FFFF });
    assert_eq!(a.calibrated(0xFFFF_0000), [IoOp::Write32 { addr: 0xFEE0_0380, value: 0 }]);
    assert_eq!(a.ticks_per_10ms, 0xFFFF);
    // 62,500,000 ticks a second at 1000 Hz.
    assert_eq!(
        APIC.start_timer(1000),
        [
            IoOp::Write32 { addr: 0xFEE0_03E0, value: 3 },
            IoOp::Write32 { addr: 0xFEE0_0320, value: 0x2_0020 },
            IoOp::Write32 { addr: 0xFEE0_0380, value: 62_500 },
        ]
    );
    let slow = LocalApic { ticks_per_10ms: 1, ..APIC };
    assert_eq!(slow.start_timer(1000)[2], IoOp::Write32 { addr: 0xFEE0_0380, value: 1 });
}

#[test]
fn ipis_name_vector_and_destination() {
    assert_eq!(
        APIC.send_ipi(3, 0x30),
        [
            IoOp::Write32 { addr: 0xFEE0_0310, value: 0x0300_0000 },
            IoOp::Write32 { addr: 0xFEE0_0300, value: 0x4030 },
            IoOp::WaitClear32 { addr: 0xFEE0_0300, mask: 0x1000 },
        ]
    );
    assert_eq!(APIC.send_init(3)[1], IoOp::Write32 { addr: 0xFEE0_0300, value: 0x4500 });
    assert_eq!(APIC.send_sipi(3, 8)[1], IoOp::Write32 { addr: 0xFEE0_0300, value: 0x4608 });
}

#[test]
fn interval_timer_wait() {
    // 10 ms are 11,931 ticks: 0x2E9B.
    let ops = apic::pit_wait_ms(10, 0xFF);
    assert_eq!(ops[0], IoOp::Out8 { port: 0x61, value: 0xFC });
    assert_eq!(ops[2], IoOp::Out8 { port: 0x42, value: 0x9B });
    assert_eq!(ops[3], IoOp::Out8 { port: 0x42, value: 0x2E });
    assert_eq!(ops[4], IoOp::Out8 { port: 0x61, value: 0xFD });
    assert_eq!(ops[5], IoOp::WaitSet8 { port: 0x61, mask: 0x20 });
    assert_eq!(apic::pit_wait_ms(1000, 0)[3], IoOp::Out8 { port: 0x42, value: 0xFF });
}

#[test]
fn io_apic_routes() {
    assert!(apic::ioapic_route(0xFEC0_0000, 16, 15, 0, 33, 0).is_none());
    assert_eq!(
        apic::ioapic_route(0xFEC0_0000, 0, 1, 0x0F, 33, 2).unwrap(),
        [
            IoOp::Write32 { addr: 0xFEC0_0000, value: 0x13 },
            IoOp::Write32 { addr: 0xFEC0_0010, value: 0x0200_0000 },
            IoOp::Write32 { addr: 0xFEC0_0000, value: 0x12 },
            IoOp::Write32 { addr: 0xFEC0_0010, value: 0xA021 },
        ]
    );
    let plain = apic::ioapic_route(0xFEC0_0000, 0, 1, 0, 33, 2).unwrap();
    assert_eq!(plain[3], IoOp::Write32 { addr: 0xFEC0_0010, value: 0x21 });
}

#[test]
fn legacy_controllers() {
    let ops = interrupts::init_pic();
    assert_eq!(ops[2], IoOp::Out8 { port: 0x21, value: 32 });
    assert_eq!(ops[3], IoOp::Out8 { port: 0xA1, value: 40 });
    assert_eq!(interrupts::eoi(1), [IoOp::Out8 { port: 0x20, value: 0x20 }]);
    assert_eq!(
        interrupts::eoi(12),
        [IoOp::Out8 { port: 0xA0, value: 0x20 }, IoOp::Out8 { port: 0x20, value: 0x20 }]
    );
    assert_eq!(interrupts::mask_pic()[1], IoOp::Out8 { port: 0xA1, value: 0xFF });
    assert_eq!(
        interrupts::irq_eoi(Some(0xFEE0_0000), 1),
        [IoOp::Write32 { addr: 0xFEE0_00B0, value: 0 }]
    );
    assert_eq!(interrupts::irq_eoi(None, 1), interrupts::eoi(1));
    assert_eq!(InterruptIndex::Timer.as_u8(), 32);
    assert_eq!(InterruptIndex::Rtc.as_u8(), 40);
    assert_eq!(InterruptIndex::SecondaryAta.as_usize(), 47);
}

#[test]
fn kernel_stack_needs_a_task_state_segment() {
    let mut s = KernelStacks::new();
    set_kernel_stack(&mut s, 1, 0x1000);
    assert_eq!(s.rsp0[1], None);
    s.init_ap(1);
    assert_eq!(s.rsp0[1], Some(0));
    set_kernel_stack(&mut s, 1, 0x1000);
    assert_eq!(s.rsp0[1], Some(0x1000));
    assert_eq!(s.rsp0[0], None);
}

fn typed(k: &mut Keyboard) -> Vec<u8> {
    let mut out = Vec::new();
    while let Some(c) = pop_char(k) {
        out.push(c);
    }
    out
}

#[test]
fn scancodes_become_characters() {
    let mut k = Keyboard::new();
    // h, then shift down, i, shift up, 1, an extended key, a release.
    for code in [0x23, 0x2A, 0x17, 0x02, 0xAA, 0x02, 0xE0, 0x9E, 0x1C, 0x39] {
        handle_scancode(&mut k, code);
    }
    assert_eq!(typed(&mut k), b"hI!1\n ");
    // The slash of the keypad.
    handle_scancode(&mut k, 0xE0);
    handle_scancode(&mut k, 0x35);
    assert_eq!(typed(&mut k), b"/");
    // Keys without a character.
    for code in [0x00, 0x3B, 0x7F, 0x1D] {
        handle_scancode(&mut k, code);
    }
    assert_eq!(pop_char(&mut k), None);
}

#[test]
fn keyboard_queue_is_fifo_and_bounded() {
    let mut k = Keyboard::new();
    for i in 0..70u8 {
        k.push_char(b'0' + i);
    }
    let out = typed(&mut k);
    assert_eq!(out.len(), 64);
    assert_eq!((out[0], out[63]), (b'0', b'0' + 63));
    for i in 0..40u8 {
        k.push_char(i + 1);
    }
    assert_eq!(typed(&mut k), (1..=40).collect::<Vec<u8>>());
}

#[test]
fn configuration_addresses() {
    assert_eq!(PciConfigAddress::new(0, 3, 0, 4).0, 0x8000_1804);
    assert_eq!(PciConfigAddress::new(1, 31, 7, 0xFF).0, 0x8001_FFFC);
    assert_eq!(
        pci::pci_config_read(0, 3, 0, 4),
        [IoOp::Out32 { port: 0xCF8, value: 0x8000_1804 }, IoOp::In32 { port: 0xCFC }]
    );
    assert_eq!(
        pci::pci_config_write(0, 3, 0, 4, 7)[1],
        IoOp::Out32 { port: 0xCFC, value: 7 }
    );
}

const NONE: Header = Header { id: 0xFFFF_FFFF, class: 0, bar0: 0, bar1: 0 };

#[test]
fn bus_is_scanned() {
    let mut headers = vec![NONE; 256];
    headers[0] = Header { id: 0x1237_8086, class: 0x0600_0002, bar0: 0, bar1: 0 };
    headers[3 * 8 + 1] = Header { id: 0x000D_1B36, class: 0x0C03_3001, bar0: 0xFEB0_0004, bar1: 1 };
    let found = pci::scan(&headers);
    assert_eq!(found.len(), 2);
    let d = found[1];
    assert_eq!((d.bus, d.device, d.function), (0, 3, 1));
    assert_eq!((d.vendor_id, d.device_id), (0x1B36, 0x000D));
    assert_eq!((d.class, d.subclass, d.prog_if, d.revision), (0x0C, 3, 0x30, 1));
    assert_eq!(d.mmio_base(), Some(0x1_FEB0_0000));
    assert_eq!(d.io_base(), None);
    assert_eq!(d.class_name(), "xHCI (USB 3.x)");
    assert_eq!(found[0].class_name(), "Host Bridge");
    let usb = pci::find_usb_controllers(&found);
    assert_eq!(usb.len(), 1);
    assert_eq!(usb[0], d);
}

#[test]
fn scan_keeps_the_first_of_many() {
    let headers = vec![Header { id: 0x1111_2222, class: 0x0C03_0000, bar0: 0, bar1: 0 }; 256];
    let found = pci::scan(&headers);
    assert_eq!(found.len(), 64);
    assert_eq!((found[63].device, found[63].function), (7, 7));
    let usb = pci::find_usb_controllers(&found);
    assert_eq!(usb.len(), 8);
    assert_eq!((usb[7].device, usb[7].function), (0, 7));
}

#[test]
fn base_addresses() {
    let d = |bar0: u32, bar1: u32| {
        PciDevice::from_location(0, 0, 0, Header { id: 0, class: 0x0200_0000, bar0, bar1 })
    };
    assert_eq!(d(0xC001, 0).io_base(), Some(0xC000));
    assert_eq!(d(0xC001, 0).mmio_base(), None);
    assert_eq!(d(0xFEB0_0000, 5).mmio_base(), Some(0xFEB0_0000));
    assert_eq!(d(0xFEB0_000C, 5).mmio_base(), Some(0x5_FEB0_0000));
    assert_eq!(d(0, 0).class_name(), "Ethernet Controller");
    assert_eq!(
        d(0, 0).enable_bus_master(0xFFFF_0100)[1],
        IoOp::Out32 { port: 0xCFC, value: 0xFFFF_0107 }
    );
}

#[test]
fn application_processors_are_all_but_one() {
    assert_eq!(boot_aps(&[0, 1, 2, 3], 2), [0, 1, 3]);
    assert_eq!(boot_aps(&[5], 5), Vec::<u32>::new());
    let mut c = Cpus::new();
    c.came_online();
    assert_eq!(cpus_online(&c), 2);
    assert_eq!(stack_top(0x1008, 0x1_0000), 0x1_1000);
}

#[test]
fn trampoline_is_patched() {
    let m = Mailbox { cr3_at: 0, stack_at: 8, entry_at: 16, cpu_at: 24 };
    let mut page = install_trampoline(&[0x90; 40], &m, 0x1122).unwrap();
    assert_eq!(page[0..8], [0x22, 0x11, 0, 0, 0, 0, 0, 0]);
    fill_mailbox(&mut page, &m, 0x8000, 0x4455_6677_8899, 3);
    assert_eq!(page[8..16], 0x8000u64.to_le_bytes());
    assert_eq!(page[16..24], 0x4455_6677_8899u64.to_le_bytes());
    assert_eq!(page[24..32], 3u64.to_le_bytes());
    assert_eq!(page[32..40], [0x90; 8]);
    assert!(install_trampoline(&[0; 4097], &m, 0).is_none());
}

/// Starts a processor that reports in after this many milliseconds of
/// waiting: whether it is online, and how many startup IPIs it took.
fn start(ready_after: u32) -> (bool, u32) {
    let mut phase = ApPhase::Init;
    let mut waited = 0;
    let mut commands = Vec::new();
    loop {
        let (next, action) = boot_one_ap(phase, waited >= ready_after, &APIC, 1);
        match action {
            ApAction::Access(ops) => commands.push(ops[1]),
            ApAction::DelayMs(ms) => {
                if phase != ApPhase::Settle {
                    waited += ms;
                }
            },
            ApAction::Nothing => {},
        }
        phase = next;
        if let ApPhase::Ended { online } = phase {
            assert_eq!(commands[0], IoOp::Write32 { addr: 0xFEE0_0300, value: 0x4500 });
            assert_eq!(
                commands[1],
                IoOp::Write32 { addr: 0xFEE0_0300, value: 0x4600 + smp::TRAMPOLINE_VECTOR as u32 }
            );
            return (online, commands.len() as u32 - 1);
        }
    }
}

#[test]
fn processors_get_two_chances() {
    assert_eq!(start(0), (true, 1));
    assert_eq!(start(20), (true, 1));
    assert_eq!(start(21), (true, 2));
    assert_eq!(start(1020), (true, 2));
    assert_eq!(start(1021), (false, 2));
}

#[test]
fn table_length_is_in_its_header() {
    let mut header = table(b"APIC", &[]);
    header[4..8].copy_from_slice(&0x0001_0204u32.to_le_bytes());
    assert_eq!(acpi::sdt_length(&header), 0x0001_0204);
}

#[test]
fn exceptions_of_user_code_end_the_task() {
    for (vector, code, text) in [
        (0, 0, "#DE divide error"),
        (6, 0, "#UD invalid opcode"),
        (12, 0, "#SS stack segment fault"),
        (13, 0, "#GP general protection fault"),
        (14, 5, "#PF protection violation"),
        (14, 4, "#PF not-present page"),
    ] {
        assert_eq!(interrupts::exception(vector, code, 0x23), (ExceptionAction::Kill, text));
        assert_eq!(interrupts::exception(vector, code, 0x08).0, ExceptionAction::Stop);
    }
    assert_eq!(interrupts::exception(8, 0, 0x23), (ExceptionAction::Stop, "DOUBLE FAULT"));
    assert_eq!(interrupts::exception(30, 0, 0x08), (ExceptionAction::Stop, "SECURITY EXCEPTION"));
    assert_eq!(interrupts::exception(14, 2, 0x08), (ExceptionAction::Stop, "Unresolved page fault"));
    assert_eq!(
        interrupts::exception(2, 0, 0x08),
        (ExceptionAction::Note, "[NMI] Non-maskable interrupt received")
    );
    assert_eq!(interrupts::exception(7, 0, 0x08).0, ExceptionAction::Note);
    assert_eq!(interrupts::exception(3, 0, 0x23).0, ExceptionAction::Breakpoint);
}

#[test]
fn exception_reports() {
    let mut out = Vec::new();
    interrupts::breakpoint_handler(&mut out, 0x1234);
    assert_eq!(out, b"[BREAKPOINT] at 0000000000001234\n");
    let mut out = Vec::new();
    interrupts::page_fault_handler(&mut out, 0xDEAD_BEEF, 0x102);
    assert_eq!(out, b"\n[PAGE FAULT]\n  Address: 0x00000000deadbeef\n  Error code:02\n");
    assert_eq!(
        interrupts::keyboard_handler(),
        [IoOp::WaitSet8 { port: 0x64, mask: 1 }, IoOp::In8 { port: 0x60 }]
    );
}
