use std::collections::BTreeMap;

use mmurtl_rs::arch::arm64;
use mmurtl_rs::arch::arm64::bcm2836::{self, Bcm2836};
use mmurtl_rs::arch::arm64::boot::{
    arm64_boot_main, boot_report, choose_dtb, device_windows, smp_method, BootStep,
};
use mmurtl_rs::arch::arm64::exceptions::{
    arm64_exception, kernel_context, kernel_fault, syscall_regs, syscall_return, user_context, user_fault,
    ExceptionAction,
};
use mmurtl_rs::arch::arm64::fdt::{self, MachineInfo, PciHost, PsciConduit};
use mmurtl_rs::arch::arm64::gic::{self, GicConfig, IrqAction};
use mmurtl_rs::arch::arm64::irq::{self, Irq, IrqChip};
use mmurtl_rs::arch::arm64::memory;
use mmurtl_rs::arch::arm64::mmu::{
    early_init, map_user_page, query_page, regs, trim_ram, UserResult, UserWalk, DEVICE_BLOCK, RAM_BLOCK,
};
use mmurtl_rs::arch::arm64::pcie;
use mmurtl_rs::arch::arm64::serial::{
    self, enable_rx_irq, handle_rx_irq, init_line, putc, set_base, Pl011,
};
use mmurtl_rs::arch::arm64::smp::{
    ap_boot, boot_secondaries, clean_dcache, mpidr, next_index, online_line, start_called, start_looked, StartPhase,
};
use mmurtl_rs::arch::arm64::timer;
use mmurtl_rs::io::{IoOp, SysReg};
use mmurtl_rs::memory::frame_allocator::{FrameAllocator, PhysRange};
use mmurtl_rs::memory::page_table::{TableOp, TableReply};
use mmurtl_rs::smp::Cpus;

/// Builds a device tree blob.
struct Tree {
    structure: Vec<u8>,
    strings: Vec<u8>,
}

fn words(ws: &[u32]) -> Vec<u8> {
    ws.iter().flat_map(|w| w.to_be_bytes()).collect()
}

impl Tree {
    fn new() -> Tree {
        Tree { structure: Vec::new(), strings: Vec::new() }
    }

    fn word(&mut self, w: u32) {
        self.structure.extend_from_slice(&w.to_be_bytes());
    }

    fn pad(&mut self) {
        while self.structure.len() % 4 != 0 {
            self.structure.push(0);
        }
    }

    fn begin(&mut self, name: &str) {
        self.word(fdt::FDT_BEGIN_NODE);
        self.structure.extend_from_slice(name.as_bytes());
        self.structure.push(0);
        self.pad();
    }

    fn end(&mut self) {
        self.word(fdt::FDT_END_NODE);
    }

    fn prop(&mut self, name: &str, value: &[u8]) {
        let at = self.strings.len() as u32;
        self.strings.extend_from_slice(name.as_bytes());
        self.strings.push(0);
        self.word(fdt::FDT_PROP);
        self.word(value.len() as u32);
        self.word(at);
        self.structure.extend_from_slice(value);
        self.pad();
    }

    fn blob(mut self) -> Vec<u8> {
        self.word(fdt::FDT_END);
        let struct_at = 40 + 16;
        let strings_at = struct_at + self.structure.len() as u32;
        let total = strings_at + self.strings.len() as u32;
        let mut b = words(&[
            fdt::FDT_MAGIC,
            total,
            struct_at,
            strings_at,
            40,
            17,
            16,
            0,
            self.strings.len() as u32,
            self.structure.len() as u32,
        ]);
        b.extend_from_slice(&[0; 16]);
        b.extend_from_slice(&self.structure);
        b.extend_from_slice(&self.strings);
        b
    }
}

fn machine() -> Tree {
    let mut t = Tree::new();
    t.begin("");
    t.prop("#address-cells", &words(&[2]));
    t.prop("#size-cells", &words(&[2]));
    t.begin("psci");
    t.prop("compatible", b"arm,psci-1.0\0arm,psci\0");
    t.prop("method", b"hvc\0");
    t.end();
    t.begin("memory@40000000");
    t.prop("device_type", b"memory\0");
    t.prop("reg", &words(&[0, 0x4000_0000, 0, 0x2000_0000, 1, 0, 0, 0, 2, 0, 0, 0x1000]));
    t.end();
    t.begin("cpus");
    t.prop("#address-cells", &words(&[1]));
    t.prop("#size-cells", &words(&[0]));
    for i in 0..3 {
        t.begin("cpu@0");
        t.prop("reg", &words(&[i]));
        t.end();
    }
    t.end();
    t.begin("intc@8000000");
    t.prop("compatible", b"arm,gic-v3\0");
    t.prop("reg", &words(&[0, 0x0800_0000, 0, 0x1_0000, 0, 0x080A_0000, 0, 0xF6_0000]));
    t.end();
    t.begin("pl011@9000000");
    t.prop("compatible", b"arm,pl011\0arm,primecell\0");
    t.prop("reg", &words(&[0, 0x0900_1000, 0, 0x1000]));
    t.prop("interrupts", &words(&[0, 5, 4]));
    t.end();
    t.begin("virtio_mmio@a000000");
    t.prop("compatible", b"virtio,mmio\0");
    t.prop("reg", &words(&[0, 0x0A00_0000, 0, 0x200]));
    t.end();
    t.begin("virtio_mmio@a000200");
    t.prop("compatible", b"virtio,mmio\0");
    t.prop("status", b"disabled\0");
    t.prop("reg", &words(&[0, 0x0A00_0200, 0, 0x200]));
    t.end();
    t.begin("timer");
    t.prop("compatible", b"arm,armv8-timer\0");
    t.prop("interrupts", &words(&[1, 13, 4, 1, 14, 4, 1, 12, 4, 1, 10, 4]));
    t.end();
    t.begin("pcie@10000000");
    t.prop("compatible", b"pci-host-ecam-generic\0");
    t.prop("#address-cells", &words(&[3]));
    t.prop("#size-cells", &words(&[2]));
    t.prop("reg", &words(&[0x40, 0x1000_0000, 0, 0x1000_0000]));
    t.prop("bus-range", &words(&[0, 15]));
    t.prop(
        "ranges",
        &words(&[
            0x0100_0000, 0, 0, 0, 0x3EFF_0000, 0, 0x1_0000, //
            0x0200_0000, 0, 0x1000_0000, 0, 0x1000_0000, 0, 0x2EFF_0000,
        ]),
    );
    t.end();
    t.end();
    t
}

#[test]
fn device_tree_describes_the_machine() {
    let blob = machine().blob();
    let header: [u8; 8] = blob[0..8].try_into().unwrap();
    assert!(fdt::is_valid(0x4000_0000, &header));
    assert!(!fdt::is_valid(0, &header));
    assert!(!fdt::is_valid(0x4000_0000, &[0; 8]));
    assert_eq!(fdt::total_size(&header), blob.len() as u64);
    let m = fdt::parse(&blob);
    assert_eq!(m.ram[..m.ram_count], [(0x4000_0000, 0x2000_0000), (0x2_0000_0000, 0x1000)]);
    assert_eq!(m.cpus[..m.cpu_count], [0, 1, 2]);
    assert_eq!(m.psci, PsciConduit::Hvc);
    assert_eq!((m.gic_version, m.gicd, m.gicr, m.gicr_size), (3, 0x0800_0000, 0x080A_0000, 0xF6_0000));
    assert_eq!((m.uart, m.uart_irq), (0x0900_1000, 37));
    assert_eq!(m.timer_irq, 28);
    assert_eq!(m.virtio[..m.virtio_count], [0x0A00_0000]);
    assert_eq!(
        m.pci,
        Some(PciHost {
            ecam: 0x40_1000_0000,
            ecam_size: 0x1000_0000,
            bus_start: 0,
            bus_end: 15,
            io: (0x3EFF_0000, 0, 0x1_0000),
            mem32: (0x1000_0000, 0x1000_0000, 0x2EFF_0000),
        })
    );
}

#[test]
fn order_of_properties_does_not_matter() {
    let compatible: (&str, &[u8]) = ("compatible", b"arm,psci-1.0\0");
    let method: (&str, &[u8]) = ("method", b"smc\0");
    let status: (&str, &[u8]) = ("status", b"okay\0");
    let orders = [
        [compatible, method, status],
        [method, compatible, status],
        [status, method, compatible],
        [method, status, compatible],
    ];
    for order in orders {
        let mut t = Tree::new();
        t.begin("");
        t.begin("psci");
        for (name, value) in order {
            t.prop(name, value);
        }
        t.end();
        t.end();
        assert_eq!(fdt::parse(&t.blob()).psci, PsciConduit::Smc);
    }
    for reg_first in [false, true] {
        let reg = words(&[0, 0x4000_0000, 0, 0x1000]);
        let mut t = Tree::new();
        t.begin("");
        t.prop(if reg_first { "#size-cells" } else { "#address-cells" }, &words(&[2]));
        t.prop(if reg_first { "#address-cells" } else { "#size-cells" }, &words(&[2]));
        t.begin("bank");
        if reg_first {
            t.prop("reg", &reg);
        }
        t.prop("device_type", b"memory\0");
        if !reg_first {
            t.prop("reg", &reg);
        }
        t.end();
        t.end();
        let m = fdt::parse(&t.blob());
        assert_eq!(m.ram[..m.ram_count], [(0x4000_0000, 0x1000)]);
    }
}

#[test]
fn empty_tree_gives_the_defaults() {
    let mut t = Tree::new();
    t.begin("");
    t.end();
    let m = fdt::try_parse(&t.blob()).unwrap();
    let d = MachineInfo::qemu_virt_defaults();
    assert_eq!((m.gic_version, m.gicd, m.gicc), (2, 0x0800_0000, 0x0801_0000));
    assert_eq!((m.uart, m.uart_irq, m.timer_irq), (d.uart, 33, 27));
    assert_eq!((m.ram_count, m.cpu_count, m.virtio_count), (0, 0, 0));
    assert_eq!(m.psci, PsciConduit::Absent);
    assert!(m.pci.is_none());
}

#[test]
fn truncated_trees_are_refused() {
    let blob = machine().blob();
    for len in [0, 7, 39, 60, 100, 333] {
        assert!(fdt::try_parse(&blob[..len]).is_none());
    }
    assert!(fdt::try_parse(&blob).is_some());
}

#[test]
fn device_tree_is_chosen() {
    assert_eq!(choose_dtb(0x4800_0000, true, true), Some(0x4800_0000));
    assert_eq!(choose_dtb(0, false, true), Some(0x4000_0000));
    assert_eq!(choose_dtb(0, false, false), None);
}

#[test]
fn boot_touches_the_device_windows() {
    let m = fdt::parse(&machine().blob());
    assert_eq!(
        device_windows(&m, IrqChip::Gic(3)),
        [
            (0x0900_1000, 0x1000),
            (0x0800_0000, 0x1_0000),
            (0x080A_0000, 0xF6_0000),
            (0x0A00_0000, 0x200),
            (0x3EFF_0000, 0x1_0000),
            (0x1000_0000, 0x2EFF_0000),
        ]
    );
    let bcm = device_windows(&m, IrqChip::Bcm2836 { local_intc: 0x4000_0000, armctrl: 0x3F00_B200 });
    assert_eq!(bcm[1], (0x4000_0000, 0x100));
    assert_eq!(device_windows(&m, IrqChip::Gic(2))[2], (m.gicc, 0x2000));
}

#[test]
fn boot_log_tells_place_and_tree() {
    let m = fdt::parse(&machine().blob());
    let method = smp_method(&[0, 0], m.psci);
    assert_eq!(method, "PSCI (HVC)");
    assert_eq!(smp_method(&[0, 0xD8], PsciConduit::Absent), "spin-table");
    assert_eq!(smp_method(&[], PsciConduit::Smc), "PSCI (SMC)");
    assert_eq!(smp_method(&[], PsciConduit::Absent), "nothing (single CPU)");
    let line = boot_report(0x4020_0000, 12, 0x4800_0000, &m, method);
    assert_eq!(
        String::from_utf8(line).unwrap().to_lowercase(),
        "[boot] loaded at 0x40200000 (linked at 0x40200000), 12 relocations applied\n\
         [dtb] device tree at 0x48000000: 3 cpu(s), 1 virtio-mmio slots, smp via psci (hvc)\n"
    );
}

#[test]
fn boot_goes_through_its_steps() {
    let mut out = Vec::new();
    let mut step = BootStep::Mmu;
    let mut n = 1;
    while let Some(next) = arm64_boot_main(step, &mut out) {
        step = next;
        n += 1;
    }
    assert_eq!(step, BootStep::Run);
    assert_eq!(n, 11);
    let text = String::from_utf8(out).unwrap().replace('\r', "");
    assert_eq!(text, "[INIT] Scheduler...\n[INIT] SMP...\n[INIT] Virtio drivers...\n");
}

#[test]
fn exceptions_are_dispatched() {
    let svc = 0x15 << 26;
    assert_eq!(arm64_exception(4, svc), ExceptionAction::Yield);
    assert_eq!(arm64_exception(4, 0), ExceptionAction::KernelFault);
    assert_eq!(arm64_exception(5, 0), ExceptionAction::Interrupt);
    assert_eq!(arm64_exception(8, svc), ExceptionAction::Syscall);
    assert_eq!(arm64_exception(8, 0x24 << 26), ExceptionAction::UserFault);
    assert_eq!(arm64_exception(9, 0), ExceptionAction::Interrupt);
    assert_eq!(arm64_exception(7, 0), ExceptionAction::Unexpected);
}

#[test]
fn task_frames() {
    let k = kernel_context(0x4000, 0x8000);
    assert_eq!((k.elr, k.spsr, k.sp_el0), (0x4000, 5, 0));
    let mut u = user_context(0x6400_0000_1000, 0x6400_000F_F000, 42, 0x8000);
    assert_eq!((u.elr, u.spsr, u.sp_el0, u.x[0]), (0x6400_0000_1000, 0, 0x6400_000F_F000, 42));
    u.x[8] = 3;
    u.x[4] = 9;
    assert_eq!(syscall_regs(&u), (3, [42, 0, 0, 0, 9]));
    syscall_return(&mut u, 7);
    assert_eq!((u.x[0], u.x[8]), (7, 3));
}

#[test]
fn faults_are_named() {
    assert_eq!(user_fault((0x24 << 26) | 0x0F, 0x10), ("data abort (permission fault)", Some(0x10)));
    assert_eq!(user_fault((0x24 << 26) | 0x05, 0x10), ("data abort (translation fault)", Some(0x10)));
    assert_eq!(user_fault(0x24 << 26, 0x10), ("data abort", Some(0x10)));
    assert_eq!(user_fault((0x20 << 26) | 0x0F, 0x10).0, "instruction abort (permission fault)");
    assert_eq!(user_fault(0x18 << 26, 0x10), ("trapped system instruction", None));
    assert_eq!(user_fault(0, 0x10), ("undefined instruction", None));
    assert_eq!(user_fault(0x3C << 26, 0x10), ("breakpoint", None));
    assert_eq!(user_fault(0x3F << 26, 0x10), ("synchronous exception", None));
    let line = String::from_utf8(kernel_fault("fault", 0x9600_0004, 0x1234, 0)).unwrap();
    assert_eq!(line.to_lowercase(), "\n[exc] kernel fault: esr=0x96000004 (ec 0x25) elr=0x1234 far=0x0\n");
}

fn gic(version: u8) -> GicConfig {
    GicConfig {
        version,
        gicd: 0x0800_0000,
        gicc_or_gicr: if version == 3 { 0x080A_0000 } else { 0x0801_0000 },
        gicr_size: 0x8_0000,
        timer_irq: 27,
        uart_irq: 33,
    }
}

#[test]
fn distributor_routes_the_console() {
    let ops = gic::init(&gic(2), 0, 0x0404_0404);
    assert_eq!(ops[0], IoOp::Write32 { addr: 0x0800_0000, value: 0 });
    assert!(ops.contains(&IoOp::Write8 { addr: 0x0800_0821, value: 4 }));
    assert!(ops.contains(&IoOp::Write32 { addr: 0x0800_0104, value: 2 }));
    assert_eq!(ops[ops.len() - 1], IoOp::Write32 { addr: 0x0800_0000, value: 1 });
    let ops = gic::init(&gic(3), 0x80_0000_0203, 0);
    assert!(ops.contains(&IoOp::Write64 { addr: 0x0800_6108, value: 0x80_0000_0203 }));
    assert!(ops.contains(&IoOp::Write32 { addr: 0x0800_0000, value: 0x13 }));
}

#[test]
fn cpu_interfaces_are_set_up() {
    let ops = gic::init_cpu(&gic(2), 0);
    assert_eq!(ops[2], IoOp::Write32 { addr: 0x0800_0100, value: 0x0800_0002 });
    assert_eq!(ops[5], IoOp::Write32 { addr: 0x0801_0000, value: 1 });
    let ops = gic::init_cpu(&gic(3), 0x080A_0000);
    assert_eq!(ops[0], IoOp::Modify32 { addr: 0x080A_0014, clear: 2, set: 0 });
    assert_eq!(ops[6], IoOp::SetSys { reg: SysReg::IccSre, bits: 1 });
    assert!(gic::init_interface(0).is_none());
    assert_eq!(gic::init_interface(1).unwrap()[2], IoOp::WriteSys { reg: SysReg::IccIgrpen1, value: 1 });
}

fn redistributor(typers: &BTreeMap<u64, u64>, me: u64) -> Option<u64> {
    let mut scan = gic::find_redistributor(&gic(3), me);
    while let Some(op) = scan.next_op() {
        match op {
            IoOp::Read64 { addr } => scan.feed(typers[&(addr - 8)]),
            _ => unreachable!(),
        }
    }
    scan.found.unwrap()
}

#[test]
fn redistributors_are_searched() {
    let mut typers = BTreeMap::new();
    typers.insert(0x080A_0000, 0);
    typers.insert(0x080C_0000, (1 << 32) | 2);
    typers.insert(0x0810_0000, (2 << 32) | 16);
    assert_eq!(redistributor(&typers, 0), Some(0x080A_0000));
    assert_eq!(redistributor(&typers, 1), Some(0x080C_0000));
    assert_eq!(redistributor(&typers, 2), Some(0x0810_0000));
    assert_eq!(redistributor(&typers, 3), None);
    // Past the end of the region.
    typers.insert(0x0810_0000, 0);
    assert_eq!(redistributor(&typers, 3), None);
}

#[test]
fn reschedule_interrupts_name_their_cpu() {
    let two = gic(2);
    let target = gic::cpu_target_id(&two, 0, 0x0808_0808);
    assert_eq!(target, 3);
    assert_eq!(
        gic::send_resched(&two, target),
        [IoOp::Barrier, IoOp::Write32 { addr: 0x0800_0F00, value: 0x8_0001 }]
    );
    let three = gic(3);
    let target = gic::cpu_target_id(&three, 0x0001_0213, 0);
    assert_eq!(target, 0x0001_0213);
    assert_eq!(
        gic::send_resched(&three, target)[1],
        IoOp::WriteSys { reg: SysReg::IccSgi1r, value: 0x1001_0102_0008 }
    );
}

#[test]
fn interrupts_are_told_apart() {
    let c = gic(2);
    let end = |iar: u32| IoOp::Write32 { addr: 0x0801_0010, value: iar };
    assert_eq!(gic::acknowledge(&c), IoOp::Read32 { addr: 0x0801_000C });
    assert_eq!(gic::handle_irq(&c, 1023), IrqAction::Spurious);
    assert_eq!(gic::handle_irq(&c, 27), IrqAction::Tick { end: end(27) });
    assert_eq!(gic::handle_irq(&c, 1), IrqAction::Resched { end: end(1) });
    assert_eq!(gic::handle_irq(&c, 33), IrqAction::Console { end: end(33) });
    assert_eq!(gic::handle_irq(&c, 99), IrqAction::Ignored { end: end(99) });
    assert_eq!(gic::acknowledge(&gic(3)), IoOp::ReadSys { reg: SysReg::IccIar1 });
    assert_eq!(
        gic::handle_irq(&gic(3), 27),
        IrqAction::Tick { end: IoOp::WriteSys { reg: SysReg::IccEoir1, value: 27 } }
    );
}

const BCM: Bcm2836 = Bcm2836 { local: 0x4000_0000, armctrl: 0x3F00_B200, uart_irq: 57 };

#[test]
fn core_controller_is_set_up() {
    let ops = bcm2836::init(&BCM, 0x8000_0002);
    assert_eq!(ops[0], IoOp::Write32 { addr: 0x3F00_B210, value: 1 << 25 });
    assert_eq!(ops[1], IoOp::Write32 { addr: 0x4000_0048, value: 8 });
    assert_eq!(ops[2], IoOp::Write32 { addr: 0x4000_00E0, value: 0xFFFF_FFFF });
    assert_eq!(ops[3], IoOp::Write32 { addr: 0x4000_0058, value: 1 });
    let other = Bcm2836 { uart_irq: 5, ..BCM };
    assert_eq!(bcm2836::init(&other, 0).len(), 3);
    assert_eq!(bcm2836::cpu_target_id(0x8000_0003), 3);
    assert_eq!(
        bcm2836::send_resched(&BCM, 3),
        [IoOp::Barrier, IoOp::Write32 { addr: 0x4000_00B0, value: 1 }]
    );
}

#[test]
fn core_controller_interrupts() {
    assert_eq!(bcm2836::read_source(&BCM, 1), IoOp::Read32 { addr: 0x4000_0064 });
    assert_eq!(bcm2836::read_pending(&BCM, 0x100), Some(IoOp::Read32 { addr: 0x3F00_B204 }));
    assert_eq!(bcm2836::read_pending(&BCM, 0x8), None);
    let p = bcm2836::handle_irq(&BCM, 1, 0x118, 1 << 25);
    assert!(p.console && p.rearm);
    assert_eq!(p.mailbox, Some(IoOp::Write32 { addr: 0x4000_00D0, value: 0xFFFF_FFFF }));
    assert_eq!(p.switch, Some(true));
    assert_eq!(bcm2836::handle_irq(&BCM, 1, 0x10, 0).switch, Some(false));
    let p = bcm2836::handle_irq(&BCM, 1, 0x100, 0);
    assert!(!p.console && p.switch.is_none());
}

#[test]
fn controllers_are_chosen() {
    let info = MachineInfo::qemu_virt_defaults();
    let (i, ops) = irq::init(&info, IrqChip::Gic(2), 0, 1);
    assert_eq!(ops, gic::init(&GicConfig { gicr_size: 0, ..gic(2) }, 0, 1));
    assert_eq!(irq::cpu_target_id(&i, 0, 2), 1);
    assert_eq!(irq::handle_irq(&i, 0), IoOp::Read32 { addr: 0x0801_000C });
    assert_eq!(arm64::hw_cpu_id(&i, 0, 2), 1);
    assert_eq!(arm64::send_resched_ipi(&i, 1), irq::send_resched(&i, 1));
    let chip = IrqChip::Bcm2836 { local_intc: 0x4000_0000, armctrl: 0x3F00_B200 };
    let (b, _) = irq::init(&info, chip, 0, 0);
    assert_eq!(b, Irq::Bcm(Bcm2836 { uart_irq: 33, ..BCM }));
    assert_eq!(irq::init_cpu(&b, 1, 0).len(), 3);
    assert_eq!(irq::handle_irq(&b, 1), IoOp::Read32 { addr: 0x4000_0064 });
    assert!(arm64::ipi_available());
    assert_eq!(arm64::cpus_online(&Cpus::new()), 1);
    assert!(arm64::on_switch_to_user(0, 0).is_empty());
}

#[test]
fn memory_leaves_out_kernel_and_tree() {
    let (fa, free, total) = memory::init(
        &[(0x4000_0000, 0x1000_0000)],
        &[(0x4800_0000, 0x10_0000)],
        0x4A00_0000,
        0x10_0000,
        0x4010_0000,
        0x4040_0000,
    );
    assert_eq!(total, 256);
    // 4 MiB up to the kernel's end, 257 pages of bitmap, and 2 MiB reserved.
    assert_eq!(fa.free_count(), 65536 - 1024 - 257 - 256 - 256);
    assert_eq!(free, (65536 - 1024 - 257 - 512) * 4096 / 0x10_0000);
    assert_eq!(memory::phys_to_virt(0x1234), 0x1234);
}

#[test]
fn heap_grows_in_place() {
    let mut fa = FrameAllocator::init(&[PhysRange { start: 0x4000_0000, end: 0x4400_0000 }], &[], 0);
    let (start, end) = memory::heap_init(&mut fa).unwrap();
    assert_eq!((start, end), (0x4010_1000, 0x4110_1000));
    assert_eq!(memory::heap_extend(end, 1, &mut fa), Some(0x20_0000));
    assert_eq!(memory::heap_extend(end, 1, &mut fa), None);
    assert_eq!(memory::heap_extend(end + 0x20_0000, 0x20_0001, &mut fa), Some(0x40_0000));
    let mut small = FrameAllocator::init(&[PhysRange { start: 0, end: 0x80_0000 }], &[], 0);
    assert_eq!(memory::heap_init(&mut small), None);
    assert!(memory::user_access_begin().is_empty());
    assert!(memory::user_access_end().is_empty());
}

#[test]
fn early_map_is_identity() {
    let t = early_init(0x5000, 0x6000);
    assert_eq!(t.l0_first, 0x5003);
    assert_eq!(t.l1[0], DEVICE_BLOCK);
    assert_eq!(t.l1[1..5], [0x6003, 0x7003, 0x8003, 0x9003]);
    assert_eq!(t.l1[5], 0);
    assert_eq!(t.l2[0], 0x4000_0000 | RAM_BLOCK);
    assert_eq!(t.l2[2047], 0x1_3FE0_0000 | RAM_BLOCK);
    let mut l2 = t.l2;
    trim_ram(&mut l2, &[(0x4000_0000, 0x30_0000)]);
    assert_ne!(l2[1], 0);
    assert_eq!(l2[2], 0);
    let r = regs(0x1122, 0x4000);
    assert_eq!((r.tcr, r.ttbr0), (0x2_8090_3510, 0x4000));
    assert_eq!(regs(0xF, 0).tcr, 0x5_8090_3510);
}

fn run_user(mem: &mut BTreeMap<u64, u64>, frames: &mut Vec<u64>, walk: UserWalk) -> UserResult {
    let mut walk = walk;
    while let Some(op) = walk.next_op() {
        let reply = match op {
            TableOp::Read { addr } => TableReply::Entry(*mem.get(&addr).unwrap_or(&0)),
            TableOp::Write { addr, value } => {
                mem.insert(addr, value);
                TableReply::Done
            },
            TableOp::Fill { table, entries } => {
                for (i, e) in entries.iter().enumerate() {
                    mem.insert(table + 8 * i as u64, *e);
                }
                TableReply::Done
            },
            TableOp::Alloc => TableReply::Frame(frames.pop()),
        };
        walk.feed(reply);
    }
    walk.result().unwrap()
}

#[test]
fn user_pages_are_mapped_and_found() {
    let va = 0x6400_0000_1000;
    let mut mem = BTreeMap::new();
    let mut frames = vec![0x9000, 0x8000, 0x7000];
    let found = run_user(&mut mem, &mut frames, query_page(0x4000, va));
    assert_eq!(found, UserResult::Attributes(None));
    let r = run_user(&mut mem, &mut frames, map_user_page(0x4000, va, 0xABC000, false, true));
    assert_eq!(r, UserResult::Mapped);
    let r = run_user(&mut mem, &mut frames, map_user_page(0x4000, va + 0x1000, 0xABD000, true, false));
    assert_eq!(r, UserResult::Mapped);
    let found = run_user(&mut mem, &mut frames, query_page(0x4000, va));
    assert_eq!(found, UserResult::Attributes(Some((true, false))));
    let found = run_user(&mut mem, &mut frames, query_page(0x4000, va + 0x1000));
    assert_eq!(found, UserResult::Attributes(Some((true, true))));
    let r = run_user(&mut mem, &mut frames, map_user_page(0x4000, va, 0xABC000, true, true));
    assert_eq!(r, UserResult::AlreadyMapped);
    // Another table is needed, and no frame is left.
    let before = mem.clone();
    let r = run_user(&mut mem, &mut frames, map_user_page(0x4000, va + 0x4000_0000, 0, true, true));
    assert_eq!(r, UserResult::OutOfMemory);
    assert_eq!(mem, before);
}

#[test]
fn configuration_space_is_mapped() {
    let host = PciHost {
        ecam: 0x40_1000_0000,
        ecam_size: 0x1000_0000,
        bus_start: 0,
        bus_end: 15,
        io: (0x3EFF_0000, 0, 0x1_0000),
        mem32: (0x1000_0000, 0x1000_0000, 0x2EFF_0000),
    };
    let (e, w) = pcie::init(&host);
    assert_eq!(
        pcie::pci_config_read(&e, 1, 2, 3, 0x10),
        Some(IoOp::Read32 { addr: 0x40_1011_3010 })
    );
    assert_eq!(pcie::pci_config_read(&e, 16, 0, 0, 0), None);
    assert_eq!(pcie::pci_config_write(&e, 0, 32, 0, 0, 1), None);
    assert_eq!(
        pcie::pci_config_write(&e, 0, 0, 0, 4, 7),
        Some(IoOp::Write32 { addr: 0x40_1000_0004, value: 7 })
    );
    assert_eq!(pcie::io_read8(&e, 0x1012), IoOp::Read8 { addr: 0x3EFF_1012 });
    assert_eq!(pcie::io_write16(&e, 0x1010, 3), IoOp::Write16 { addr: 0x3EFF_1010, value: 3 });
    assert_eq!((w.io_next, w.io_end), (0x1000, 0x1_0000));
    assert_eq!((w.mem_next, w.mem_end), (0x1000_0000, 0x3EFF_0000));
    let moved = PciHost { mem32: (0x5000_0000, 0x1000_0000, 0x1000), ..host };
    assert_eq!(pcie::init(&moved).1.mem_end, 0x1000_0000);
    assert_eq!(pcie::pci_config_read(&pcie::Ecam::absent(), 0, 0, 0, 0), None);
}

#[test]
fn uart_is_set_up() {
    let mut u = Pl011::new();
    assert_eq!(u.base, 0x0900_0000);
    set_base(&mut u, 0x3F20_1000);
    assert_eq!(
        serial::init(&u),
        [
            IoOp::Write32 { addr: 0x3F20_1030, value: 0 },
            IoOp::WaitClear32 { addr: 0x3F20_1018, mask: 8 },
        ]
    );
    assert_eq!(init_line(&u, 0, 0)[0], IoOp::Write32 { addr: 0x3F20_102C, value: 0x70 });
    assert_eq!(init_line(&u, 0x10, 0x40)[0], IoOp::Write32 { addr: 0x3F20_102C, value: 0x50 });
    assert_eq!(init_line(&u, 0x10, 0x40)[1], IoOp::Write32 { addr: 0x3F20_1030, value: 0x311 });
    assert_eq!(putc(&u, b'x')[1], IoOp::Write32 { addr: 0x3F20_1000, value: 0x78 });
    assert_eq!(enable_rx_irq(&u)[1], IoOp::Write32 { addr: 0x3F20_1038, value: 0x50 });
}

#[test]
fn received_words_become_characters() {
    let u = Pl011::new();
    let mut fifo: Vec<u32> = vec![0x0D, 0x561, 0x62];
    let mut drain = handle_rx_irq(&u);
    let mut got = Vec::new();
    let mut cleared = false;
    while let Some(op) = drain.next_op() {
        let value = match op {
            IoOp::Read32 { addr: 0x0900_0018 } => {
                if fifo.is_empty() {
                    0x10
                } else {
                    0
                }
            },
            IoOp::Read32 { addr: 0x0900_0000 } => fifo.remove(0),
            IoOp::Write32 { addr: 0x0900_0044, value: 0x50 } => {
                cleared = true;
                0
            },
            _ => unreachable!(),
        };
        if let Some(c) = drain.feed(value) {
            got.push(c);
        }
    }
    assert_eq!(got, b"\nab");
    assert!(cleared);
}

#[test]
fn secondary_cpus_are_listed() {
    let m = fdt::parse(&machine().blob());
    assert_eq!(boot_secondaries(&m, 1), Some(vec![0, 2]));
    assert_eq!(boot_secondaries(&MachineInfo::qemu_virt_defaults(), 0), None);
    assert_eq!(mpidr(0x80_8100_0203), 0x80_0000_0203);
    let r = ap_boot(0x1_0000, 3, &regs(2, 0x4000));
    assert_eq!((r.stack_top, r.cpu, r.ttbr0), (0x2_0000, 3, 0x4000));
}

#[test]
fn cleaned_lines_cover_the_record() {
    assert_eq!(clean_dcache(0x1030, 0x30), [0x1000, 0x1040]);
    assert_eq!(clean_dcache(0x1040, 0x40), [0x1040]);
    assert_eq!(clean_dcache(0x1040, 0), Vec::<u64>::new());
}

#[test]
fn secondary_start_is_awaited() {
    assert_eq!(start_called(-2), StartPhase::Refused);
    let mut p = start_called(0);
    for _ in 0..5 {
        p = start_looked(p, false);
    }
    assert_eq!(p, StartPhase::Wait { waited: 5 });
    assert_eq!(start_looked(p, true), StartPhase::Ended { online: true });
    assert_eq!(
        start_looked(StartPhase::Wait { waited: 1000 }, true),
        StartPhase::Ended { online: false }
    );
    assert_eq!(next_index(1, true), 2);
    assert_eq!(next_index(2, false), 2);
}

#[test]
fn arm64_console_lines() {
    let m = fdt::parse(&machine().blob());
    let text = |b: Vec<u8>| String::from_utf8(b).unwrap();
    assert_eq!(
        text(irq::init_line(&m, IrqChip::Gic(3), 62_500_000)),
        "[IRQ] GICv3: distributor 0x8000000, redistributors 0x80a0000 (+0xf60000); \
         timer INTID 28; counter 62 MHz\n"
    );
    assert_eq!(
        text(irq::init_line(&m, IrqChip::Bcm2836 { local_intc: 0x4000_0000, armctrl: 0x3F00_B200 }, 0)),
        "[IRQ] BCM2836 local controller 0x40000000, armctrl 0x3f00b200; UART IRQ 37; counter 0 MHz\n"
    );
    assert_eq!(text(online_line(3, 0x103)), "[SMP] CPU 3 online (MPIDR 0x103), scheduling\n");
    assert_eq!(
        text(pcie::bridge_line(&m.pci.unwrap(), 4)),
        "[PCI] ECAM host bridge at 0x4010000000 (buses 0-15); I/O window 0x3eff0000, \
         MMIO window 0x10000000; 4 BARs assigned\n"
    );
}

#[test]
fn timer_counts() {
    assert_eq!(timer::start(62_500_000, 1000), 62_500);
    assert_eq!(timer::delay_ms(100, 62_500_000, 10), 625_100);
    assert!(timer::delaying(99, 100));
    assert!(!timer::delaying(100, 100));
    assert_eq!(timer::megahertz(62_500_000), 62);
    assert_eq!(arm64::start_tick(62_500_000, 100, true), 625_000);
    assert_eq!(arm64::delay_ms(0, 1000, 5), 5);
}
