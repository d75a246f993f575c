//! Boot on this machine: what the console says of the memory, and the order
//! in which the machine is brought up.

use vstd::prelude::*;
use vstd::string::StringSliceAdditionalSpecFns;
use super::memory::{all_usable, total_usable_mib, MemoryRegion};
use crate::memory::{summable, total_bytes};
use crate::serial::{decimal, hex_digits, sent, write_dec, write_hex, write_str};

verus! {

/// What the console says of the memory: how many regions there are, where
/// physical memory is seen, and how much of it is usable.
pub open spec fn memory_text(regions: nat, offset: Option<u64>, usable_mib: nat) -> Seq<u8> {
    sent("[INFO] Memory regions: ".spec_bytes()) + decimal(regions) + sent("\n".spec_bytes())
        + match offset {
        Some(o) => sent("[INFO] Physical memory offset: 0x".spec_bytes()) + hex_digits(o as int, 16)
            + sent("\n".spec_bytes()),
        None => sent("[WARN] Physical memory not mapped by bootloader\n".spec_bytes()),
    } + sent("[INFO] Usable memory: ".spec_bytes()) + decimal(usable_mib) + sent(
        " MiB\n".spec_bytes(),
    )
}

/// Writes what the console says of the memory.
pub fn memory_report(out: &mut Vec<u8>, regions: &[MemoryRegion], offset: Option<u64>)
    requires
        summable(all_usable(regions@)),
    ensures
        final(out)@ == old(out)@ + memory_text(
            regions@.len(),
            offset,
            (total_bytes(all_usable(regions@), all_usable(regions@).len() as int) / 0x10_0000) as nat,
        ),
{
    write_str(out, "[INFO] Memory regions: ");
    write_dec(out, regions.len() as u64);
    write_str(out, "\n");
    match offset {
        Some(o) => {
            write_str(out, "[INFO] Physical memory offset: 0x");
            write_hex(out, o);
            write_str(out, "\n");
        },
        None => {
            write_str(out, "[WARN] Physical memory not mapped by bootloader\n");
        },
    }
    let mib: u64 = total_usable_mib(regions);
    write_str(out, "[INFO] Usable memory: ");
    write_dec(out, mib);
    write_str(out, " MiB\n");
    assert(out@ =~= old(out)@ + memory_text(regions@.len(), offset, mib as nat));
}

/// The boot on this machine, step by step.
#[derive(Debug, Clone, Copy, PartialEq, Eq, Structural)]
pub enum BootStep {
    /// Load the segments.
    Gdt,
    /// Load the interrupt table.
    Idt,
    /// Remap and mask the legacy interrupt controllers.
    Pic,
    /// Hand the RAM to the frame allocator.
    Memory,
    /// Read the ACPI tables.
    Acpi,
    /// Switch to the Local APIC and the I/O APIC.
    Apic,
    /// Start the scheduler; the other CPUs register with it as they come up.
    Scheduler,
    /// Start the other CPUs.
    Smp,
    /// Scan the PCI bus.
    Pci,
    /// Set up the USB controllers.
    Usb,
    /// Set up the virtio devices.
    Virtio,
}

impl BootStep {
    /// The step after this one; after the last, the shared part of the boot
    /// goes on.
    pub open spec fn next(self) -> Option<BootStep> {
        match self {
            BootStep::Gdt => Some(BootStep::Idt),
            BootStep::Idt => Some(BootStep::Pic),
            BootStep::Pic => Some(BootStep::Memory),
            BootStep::Memory => Some(BootStep::Acpi),
            BootStep::Acpi => Some(BootStep::Apic),
            BootStep::Apic => Some(BootStep::Scheduler),
            BootStep::Scheduler => Some(BootStep::Smp),
            BootStep::Smp => Some(BootStep::Pci),
            BootStep::Pci => Some(BootStep::Usb),
            BootStep::Usb => Some(BootStep::Virtio),
            BootStep::Virtio => None,
        }
    }

    /// What the console says before the step.
    pub open spec fn announced(self) -> Seq<u8> {
        sent(
            match self {
                BootStep::Gdt => "[INIT] GDT...\n".spec_bytes(),
                BootStep::Idt => "[INIT] IDT...\n".spec_bytes(),
                BootStep::Pic => "[INIT] PIC...\n".spec_bytes(),
                BootStep::Memory => "[INIT] Memory manager...\n".spec_bytes(),
                BootStep::Acpi => "[INIT] ACPI...\n".spec_bytes(),
                BootStep::Apic => "[INIT] APIC...\n".spec_bytes(),
                BootStep::Scheduler => "[INIT] Scheduler...\n".spec_bytes(),
                BootStep::Smp => "[INIT] SMP...\n".spec_bytes(),
                BootStep::Pci => "[INIT] PCI bus...\n".spec_bytes(),
                BootStep::Usb => "[INIT] USB subsystem...\n".spec_bytes(),
                BootStep::Virtio => "[INIT] Virtio drivers...\n".spec_bytes(),
            },
        )
    }
}

/// Announces a step of the boot, and gives the one after it.
pub fn kernel_main(step: BootStep, out: &mut Vec<u8>) -> (r: Option<BootStep>)
    ensures
        r == step.next(),
        final(out)@ == old(out)@ + step.announced(),
{
    match step {
        BootStep::Gdt => {
            write_str(out, "[INIT] GDT...\n");
            Some(BootStep::Idt)
        },
        BootStep::Idt => {
            write_str(out, "[INIT] IDT...\n");
            Some(BootStep::Pic)
        },
        BootStep::Pic => {
            write_str(out, "[INIT] PIC...\n");
            Some(BootStep::Memory)
        },
        BootStep::Memory => {
            write_str(out, "[INIT] Memory manager...\n");
            Some(BootStep::Acpi)
        },
        BootStep::Acpi => {
            write_str(out, "[INIT] ACPI...\n");
            Some(BootStep::Apic)
        },
        BootStep::Apic => {
            write_str(out, "[INIT] APIC...\n");
            Some(BootStep::Scheduler)
        },
        BootStep::Scheduler => {
            write_str(out, "[INIT] Scheduler...\n");
            Some(BootStep::Smp)
        },
        BootStep::Smp => {
            write_str(out, "[INIT] SMP...\n");
            Some(BootStep::Pci)
        },
        BootStep::Pci => {
            write_str(out, "[INIT] PCI bus...\n");
            Some(BootStep::Usb)
        },
        BootStep::Usb => {
            write_str(out, "[INIT] USB subsystem...\n");
            Some(BootStep::Virtio)
        },
        BootStep::Virtio => {
            write_str(out, "[INIT] Virtio drivers...\n");
            None
        },
    }
}

/// The start goes through its steps in this order, to the end.
pub proof fn law_order_of_the_start()
    ensures
        BootStep::Gdt.next() == Some(BootStep::Idt),
        BootStep::Idt.next() == Some(BootStep::Pic),
        BootStep::Pic.next() == Some(BootStep::Memory),
        BootStep::Memory.next() == Some(BootStep::Acpi),
        BootStep::Acpi.next() == Some(BootStep::Apic),
        BootStep::Apic.next() == Some(BootStep::Scheduler),
        BootStep::Scheduler.next() == Some(BootStep::Smp),
        BootStep::Smp.next() == Some(BootStep::Pci),
        BootStep::Pci.next() == Some(BootStep::Usb),
        BootStep::Usb.next() == Some(BootStep::Virtio),
        BootStep::Virtio.next() is None,
{
}

} // verus!
