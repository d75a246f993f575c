//! Boot on this machine: which device tree is used, which device registers
//! are mapped before memory management exists, and how CPUs are started.

use vstd::prelude::*;
use vstd::string::StringSliceAdditionalSpecFns;
use super::fdt::{MachineInfo, PsciConduit};
use super::irq::IrqChip;
use crate::inline::{windows48, windows48_new, windows48_push};
use crate::line::{blank, BoundedLine, LineSize};
use crate::serial::{decimal, hex, sent, write_str};

verus! {

/// Address that the kernel is linked at.
pub const LINK_BASE: u64 = 0x4020_0000;

/// Where QEMU leaves the device tree for kernels that are not told of it.
pub const QEMU_VIRT_DTB: u64 = 0x4000_0000;

/// The device tree to use: the one that the kernel was told of if it is one,
/// else the one at the start of RAM if that is one.
pub fn choose_dtb(dtb_arg: u64, arg_valid: bool, virt_valid: bool) -> (r: Option<u64>)
    ensures
        r == if arg_valid {
            Some(dtb_arg)
        } else if virt_valid {
            Some(QEMU_VIRT_DTB)
        } else {
            None
        },
{
    if arg_valid {
        Some(dtb_arg)
    } else if virt_valid {
        Some(QEMU_VIRT_DTB)
    } else {
        None
    }
}

/// The interrupt controller's registers.
pub open spec fn controller_windows(info: MachineInfo, chip: IrqChip) -> Seq<(u64, u64)> {
    match chip {
        IrqChip::Gic(version) => if version == 3 {
            seq![(info.gicd, 0x1_0000u64), (info.gicr, info.gicr_size)]
        } else {
            seq![(info.gicd, 0x1000u64), (info.gicc, 0x2000u64)]
        },
        IrqChip::Bcm2836 { local_intc, armctrl } => seq![
            (local_intc, 0x100u64),
            (armctrl, 0x200u64),
        ],
    }
}

/// The PCI bridge's windows, as far as it has them.
pub open spec fn bridge_windows(info: MachineInfo) -> Seq<(u64, u64)> {
    match info.pci {
        None => Seq::empty(),
        Some(host) => (if host.io.2 != 0 {
            seq![(host.io.0, host.io.2)]
        } else {
            Seq::empty()
        }) + (if host.mem32.2 != 0 {
            seq![(host.mem32.0, host.mem32.2)]
        } else {
            Seq::empty()
        }),
    }
}

/// Everything that the kernel touches before memory management exists: base
/// and size of the console's, the interrupt controller's and the virtio
/// transports' registers, and of the PCI bridge's windows.
pub open spec fn windows_of(info: MachineInfo, chip: IrqChip) -> Seq<(u64, u64)> {
    seq![(info.uart, 0x1000u64)] + controller_windows(info, chip) + info@.virtio.map_values(
        |v: u64| (v, 0x200u64),
    ) + bridge_windows(info)
}

fn push_window(out: &mut heapless::Vec<(u64, u64), 48>, base: u64, size: u64)
    requires
        windows48(*old(out)).len() < 48,
    ensures
        windows48(*final(out)) == windows48(*old(out)).push((base, size)),
{
    let _ = windows48_push(out, (base, size));
}

/// Everything that the kernel touches before memory management exists.
pub fn device_windows(info: &MachineInfo, chip: IrqChip) -> (r: heapless::Vec<(u64, u64), 48>)
    requires
        info.wf(),
    ensures
        windows48(r) == windows_of(*info, chip),
{
    let mut out = windows48_new();
    push_window(&mut out, info.uart, 0x1000);
    match chip {
        IrqChip::Gic(version) => if version == 3 {
            push_window(&mut out, info.gicd, 0x1_0000);
            push_window(&mut out, info.gicr, info.gicr_size);
        } else {
            push_window(&mut out, info.gicd, 0x1000);
            push_window(&mut out, info.gicc, 0x2000);
        },
        IrqChip::Bcm2836 { local_intc, armctrl } => {
            push_window(&mut out, local_intc, 0x100);
            push_window(&mut out, armctrl, 0x200);
        },
    }
    let ghost head = seq![(info.uart, 0x1000u64)] + controller_windows(*info, chip);
    assert(windows48(out) =~= head);
    let mut i: usize = 0;
    while i < info.virtio_count
        invariant
            info.wf(),
            i <= info.virtio_count,
            head.len() == 3,
            windows48(out) =~= head + info@.virtio.take(i as int).map_values(
                |v: u64| (v, 0x200u64),
            ),
        decreases info.virtio_count - i,
    {
        push_window(&mut out, info.virtio[i], 0x200);
        assert(info@.virtio.take(i + 1) =~= info@.virtio.take(i as int).push(info.virtio@[i as int]));
        i += 1;
    }
    assert(info@.virtio.take(i as int) =~= info@.virtio);
    if let Some(host) = info.pci {
        if host.io.2 != 0 {
            push_window(&mut out, host.io.0, host.io.2);
        }
        if host.mem32.2 != 0 {
            push_window(&mut out, host.mem32.0, host.mem32.2);
        }
    }
    assert(windows48(out) =~= windows_of(*info, chip));
    out
}

/// How the secondary CPUs are started: some CPU has an address to release it
/// at, or the firmware is called in one of two ways, or not at all.
pub open spec fn method_text(released: bool, psci: PsciConduit) -> Seq<char> {
    if released {
        "spin-table"@
    } else {
        match psci {
            PsciConduit::Hvc => "PSCI (HVC)"@,
            PsciConduit::Smc => "PSCI (SMC)"@,
            PsciConduit::Absent => "nothing (single CPU)"@,
        }
    }
}

/// How the secondary CPUs are started, for the boot log; `releases` are the
/// addresses to release them at, 0 where there is none.
pub fn smp_method(releases: &[u64], psci: PsciConduit) -> (r: &'static str)
    ensures
        r@ == method_text(exists|i: int| 0 <= i < releases@.len() && releases@[i] != 0, psci),
{
    let mut i: usize = 0;
    while i < releases.len()
        invariant
            i <= releases@.len(),
            forall|k: int| 0 <= k < i ==> releases@[k] == 0,
        decreases releases@.len() - i,
    {
        if releases[i] != 0 {
            assert(releases@[i as int] != 0);
            return "spin-table";
        }
        i += 1;
    }
    match psci {
        PsciConduit::Hvc => "PSCI (HVC)",
        PsciConduit::Smc => "PSCI (SMC)",
        PsciConduit::Absent => "nothing (single CPU)",
    }
}

/// What the boot log says of the kernel's place and of the device tree.
pub open spec fn boot_text(
    load_addr: u64,
    relocs: u64,
    dtb: u64,
    cpus: nat,
    virtio: nat,
    method: Seq<u8>,
) -> Seq<u8> {
    "[BOOT] Loaded at 0x".spec_bytes() + hex(load_addr as nat) + " (linked at 0x".spec_bytes() + hex(
        LINK_BASE as nat,
    ) + "), ".spec_bytes() + decimal(relocs as nat) + " relocations applied\n".spec_bytes()
        + "[DTB] Device tree at 0x".spec_bytes() + hex(dtb as nat) + ": ".spec_bytes() + decimal(cpus)
        + " CPU(s), ".spec_bytes() + decimal(virtio) + " virtio-mmio slots, SMP via ".spec_bytes()
        + method + "\n".spec_bytes()
}

/// The same as it fits a buffer of 200 bytes.
pub open spec fn boot_lines(
    load_addr: u64,
    relocs: u64,
    dtb: u64,
    cpus: nat,
    virtio: nat,
    method: Seq<u8>,
) -> Seq<u8> {
    blank(200).put("[BOOT] Loaded at 0x".spec_bytes()).put(hex(load_addr as nat)).put(
        " (linked at 0x".spec_bytes(),
    ).put(hex(LINK_BASE as nat)).put("), ".spec_bytes()).put(decimal(relocs as nat)).put(
        " relocations applied\n".spec_bytes(),
    ).next_write().put("[DTB] Device tree at 0x".spec_bytes()).put(hex(dtb as nat)).put(
        ": ".spec_bytes(),
    ).put(decimal(cpus)).put(" CPU(s), ".spec_bytes()).put(decimal(virtio)).put(
        " virtio-mmio slots, SMP via ".spec_bytes(),
    ).put(method).put("\n".spec_bytes()).bytes
}

/// What the boot log says of the kernel's place and of the device tree.
pub fn boot_report(load_addr: u64, relocs: u64, dtb: u64, info: &MachineInfo, method: &str) -> (r: Vec<
    u8,
>)
    requires
        info.wf(),
    ensures
        ({
            let m = method.spec_bytes();
            let cpus = info@.cpus.len();
            let virtio = info@.virtio.len();
            let text = boot_text(load_addr, relocs, dtb, cpus, virtio, m);
            &&& r@ == boot_lines(load_addr, relocs, dtb, cpus, virtio, m)
            &&& text.len() <= 200 ==> r@ =~= text
        }),
{
    let mut line = BoundedLine::new(LineSize::Bytes200);
    line.text("[BOOT] Loaded at 0x");
    line.hex(load_addr);
    line.text(" (linked at 0x");
    line.hex(LINK_BASE);
    line.text("), ");
    line.dec(relocs);
    line.text(" relocations applied\n");
    line.next_write();
    line.text("[DTB] Device tree at 0x");
    line.hex(dtb);
    line.text(": ");
    line.dec(info.cpu_count as u64);
    line.text(" CPU(s), ");
    line.dec(info.virtio_count as u64);
    line.text(" virtio-mmio slots, SMP via ");
    line.text(method);
    line.text("\n");
    line.into_bytes()
}

/// The boot on this machine once the device tree is read, step by step.
#[derive(Debug, Clone, Copy, PartialEq, Eq, Structural)]
pub enum BootStep {
    /// Turn the MMU on, with the RAM and the devices of the tree.
    Mmu,
    /// Set up the console, and write the banner.
    Console,
    /// Install the exception vectors.
    Exceptions,
    /// Write the boot log.
    Report,
    /// Hand the RAM to the frame allocator.
    Memory,
    /// Set up the interrupt controller, and console input.
    Interrupts,
    /// Start the scheduler.
    Scheduler,
    /// Start the other CPUs.
    Secondaries,
    /// Look for virtio transports.
    Virtio,
    /// Set up the PCIe bridge, if there is one, and the devices behind it.
    Pcie,
    /// Go on with the shared part of the boot.
    Run,
}

impl BootStep {
    /// The step after this one.
    pub open spec fn next(self) -> Option<BootStep> {
        match self {
            BootStep::Mmu => Some(BootStep::Console),
            BootStep::Console => Some(BootStep::Exceptions),
            BootStep::Exceptions => Some(BootStep::Report),
            BootStep::Report => Some(BootStep::Memory),
            BootStep::Memory => Some(BootStep::Interrupts),
            BootStep::Interrupts => Some(BootStep::Scheduler),
            BootStep::Scheduler => Some(BootStep::Secondaries),
            BootStep::Secondaries => Some(BootStep::Virtio),
            BootStep::Virtio => Some(BootStep::Pcie),
            BootStep::Pcie => Some(BootStep::Run),
            BootStep::Run => None,
        }
    }

    /// What the console says before the step.
    pub open spec fn announced(self) -> Seq<u8> {
        match self {
            BootStep::Scheduler => sent("[INIT] Scheduler...\n".spec_bytes()),
            BootStep::Secondaries => sent("[INIT] SMP...\n".spec_bytes()),
            BootStep::Virtio => sent("[INIT] Virtio drivers...\n".spec_bytes()),
            _ => Seq::empty(),
        }
    }
}

/// Announces a step of the boot, and gives the one after it.
pub fn arm64_boot_main(step: BootStep, out: &mut Vec<u8>) -> (r: Option<BootStep>)
    ensures
        r == step.next(),
        final(out)@ =~= old(out)@ + step.announced(),
{
    match step {
        BootStep::Mmu => Some(BootStep::Console),
        BootStep::Console => Some(BootStep::Exceptions),
        BootStep::Exceptions => Some(BootStep::Report),
        BootStep::Report => Some(BootStep::Memory),
        BootStep::Memory => Some(BootStep::Interrupts),
        BootStep::Interrupts => Some(BootStep::Scheduler),
        BootStep::Scheduler => {
            write_str(out, "[INIT] Scheduler...\n");
            Some(BootStep::Secondaries)
        },
        BootStep::Secondaries => {
            write_str(out, "[INIT] SMP...\n");
            Some(BootStep::Virtio)
        },
        BootStep::Virtio => {
            write_str(out, "[INIT] Virtio drivers...\n");
            Some(BootStep::Pcie)
        },
        BootStep::Pcie => Some(BootStep::Run),
        BootStep::Run => None,
    }
}

/// The start goes through its steps in this order, to the end.
pub proof fn law_order_of_the_start()
    ensures
        BootStep::Mmu.next() == Some(BootStep::Console),
        BootStep::Console.next() == Some(BootStep::Exceptions),
        BootStep::Exceptions.next() == Some(BootStep::Report),
        BootStep::Report.next() == Some(BootStep::Memory),
        BootStep::Memory.next() == Some(BootStep::Interrupts),
        BootStep::Interrupts.next() == Some(BootStep::Scheduler),
        BootStep::Scheduler.next() == Some(BootStep::Secondaries),
        BootStep::Secondaries.next() == Some(BootStep::Virtio),
        BootStep::Virtio.next() == Some(BootStep::Pcie),
        BootStep::Pcie.next() == Some(BootStep::Run),
        BootStep::Run.next() is None,
{
}

/// The devices that are mapped: the console first, then the two parts of the interrupt controller,
/// then every virtio slot, then those windows of the bridge that are not empty, each with its size.
pub proof fn law_devices_that_are_mapped(info: MachineInfo, chip: IrqChip, i: int)
    requires
        info.wf(),
    ensures
        ({
            let w = windows_of(info, chip);
            let slots = info@.virtio.len() as int;
            &&& w[0] == (info.uart, 0x1000u64)
            &&& chip == IrqChip::Gic(3) ==> w[1] == (info.gicd, 0x1_0000u64) && w[2] == (
                info.gicr,
                info.gicr_size,
            )
            &&& chip is Gic && chip->Gic_0 != 3 ==> w[1] == (info.gicd, 0x1000u64) && w[2] == (
                info.gicc,
                0x2000u64,
            )
            &&& chip matches IrqChip::Bcm2836 { local_intc, armctrl } ==> w[1] == (local_intc, 0x100u64)
                && w[2] == (armctrl, 0x200u64)
            &&& 0 <= i < slots ==> w[3 + i] == (info@.virtio[i], 0x200u64)
            &&& info.pci is None ==> w.len() == 3 + slots
            &&& info.pci matches Some(h) ==> {
                let ports = h.io.2 != 0;
                let memory = h.mem32.2 != 0;
                &&& w.len() == 3 + slots + (if ports { 1int } else { 0 }) + (if memory { 1int } else { 0 })
                &&& ports ==> w[3 + slots] == (h.io.0, h.io.2)
                &&& memory ==> w.last() == (h.mem32.0, h.mem32.2)
            }
        }),
{
}

/// The way in which processors are started is told: a table they wait at, the firmware's call, or
/// none.
pub proof fn law_ways_to_start(psci: PsciConduit)
    ensures
        method_text(true, psci) == "spin-table"@,
        method_text(false, PsciConduit::Hvc) == "PSCI (HVC)"@,
        method_text(false, PsciConduit::Smc) == "PSCI (SMC)"@,
        method_text(false, PsciConduit::Absent) == "nothing (single CPU)"@,
        LINK_BASE == 0x4020_0000,
        QEMU_VIRT_DTB == 0x4000_0000,
{
}

} // verus!
