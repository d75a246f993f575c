//! PCI bus scanning: finds devices through configuration space.
//!
//! Configuration space is accessed through the I/O ports 0xCF8 (address) and
//! 0xCFC (data). Bus 0 is scanned for all devices and functions, with helpers
//! to find classes of devices.

use vstd::prelude::*;
use crate::bits::lemma_word_fields;
use crate::inline::{
    devices64, devices64_new, devices64_push, devices64_slice, devices8, devices8_new,
    devices8_push,
};
use crate::io::IoOp;

verus! {

pub const CONFIG_ADDRESS: u16 = 0xCF8;

pub const CONFIG_DATA: u16 = 0xCFC;

/// The configuration address of a register: an enable bit, then bus, device,
/// function and register number, each in its field.
pub open spec fn config_address(bus: u8, device: u8, function: u8, register: u8) -> u32 {
    0x8000_0000u32 | ((bus as u32) << 16) | ((device as u32) << 11) | ((function as u32) << 8) | (
    register as u32 & 0xFC)
}

/// The configuration address of a location that exists holds its bus, device,
/// function and register in fields that do not overlap.
pub proof fn law_config_address_fields(bus: u8, device: u8, function: u8, register: u8)
    requires
        device < 32,
        function < 8,
    ensures
        config_address(bus, device, function, register) == 0x8000_0000 + 0x1_0000 * bus + 0x800
            * device + 0x100 * function + (register - register % 4),
{
    assert(0x8000_0000u32 | ((bus as u32) << 16) | ((device as u32) << 11) | ((function as u32) << 8)
        | (register as u32 & 0xFC) == 0x8000_0000u32 + 0x1_0000u32 * (bus as u32) + 0x800u32 * (
    device as u32) + 0x100u32 * (function as u32) + (register as u32 - (register as u32) % 4))
        by (bit_vector)
        requires
            device < 32,
            function < 8,
    ;
}

/// The configuration address of a register.
pub struct PciConfigAddress(pub u32);

impl PciConfigAddress {
    /// Builds the configuration address of a register.
    pub fn new(bus: u8, device: u8, function: u8, register: u8) -> (r: Self)
        ensures
            r.0 == config_address(bus, device, function, register),
    {
        PciConfigAddress(
            0x8000_0000u32 | ((bus as u32) << 16) | ((device as u32) << 11) | ((function as u32)
                << 8) | (register as u32 & 0xFC),
        )
    }
}

/// Reads a 32-bit value from configuration space.
pub fn pci_config_read(bus: u8, device: u8, function: u8, register: u8) -> (r: Vec<IoOp>)
    ensures
        r@ == seq![
            IoOp::Out32 {
                port: CONFIG_ADDRESS,
                value: config_address(bus, device, function, register),
            },
            IoOp::In32 { port: CONFIG_DATA },
        ],
{
    let mut ops: Vec<IoOp> = Vec::new();
    let a = PciConfigAddress::new(bus, device, function, register);
    ops.push(IoOp::Out32 { port: CONFIG_ADDRESS, value: a.0 });
    ops.push(IoOp::In32 { port: CONFIG_DATA });
    ops
}

/// Writes a 32-bit value to configuration space.
pub fn pci_config_write(bus: u8, device: u8, function: u8, register: u8, value: u32) -> (r: Vec<IoOp>)
    ensures
        r@ == seq![
            IoOp::Out32 {
                port: CONFIG_ADDRESS,
                value: config_address(bus, device, function, register),
            },
            IoOp::Out32 { port: CONFIG_DATA, value },
        ],
{
    let mut ops: Vec<IoOp> = Vec::new();
    let a = PciConfigAddress::new(bus, device, function, register);
    ops.push(IoOp::Out32 { port: CONFIG_ADDRESS, value: a.0 });
    ops.push(IoOp::Out32 { port: CONFIG_DATA, value });
    ops
}

/// One PCI function.
#[derive(Debug, Clone, Copy, PartialEq, Eq, Structural)]
pub struct PciDevice {
    pub bus: u8,
    pub device: u8,
    pub function: u8,
    pub vendor_id: u16,
    pub device_id: u16,
    pub class: u8,
    pub subclass: u8,
    pub prog_if: u8,
    pub revision: u8,
    pub bar0: u32,
    pub bar1: u32,
}

/// Registers of a function's header: vendor and device, command and status,
/// class, and the first two base addresses.
pub const REG_ID: u8 = 0x00;

pub const REG_COMMAND: u8 = 0x04;

pub const REG_CLASS: u8 = 0x08;

pub const REG_BAR0: u8 = 0x10;

pub const REG_BAR1: u8 = 0x14;

/// The registers of a function's header that are read.
#[derive(Debug, Clone, Copy, PartialEq, Eq, Structural)]
pub struct Header {
    pub id: u32,
    pub class: u32,
    pub bar0: u32,
    pub bar1: u32,
}

/// The function with this header.
pub open spec fn device_of(bus: u8, device: u8, function: u8, h: Header) -> PciDevice {
    PciDevice {
        bus,
        device,
        function,
        vendor_id: (h.id % 0x1_0000) as u16,
        device_id: (h.id / 0x1_0000) as u16,
        class: (h.class / 0x100_0000) as u8,
        subclass: (h.class / 0x1_0000 % 256) as u8,
        prog_if: (h.class / 256 % 256) as u8,
        revision: (h.class % 256) as u8,
        bar0: h.bar0,
        bar1: h.bar1,
    }
}

/// The name of a class of devices.
pub open spec fn class_text(class: u8, subclass: u8, prog_if: u8) -> Seq<char> {
    if class == 0x0C && subclass == 0x03 {
        if prog_if == 0x30 {
            "xHCI (USB 3.x)"@
        } else if prog_if == 0x20 {
            "EHCI (USB 2.0)"@
        } else if prog_if == 0x10 {
            "OHCI (USB 1.x)"@
        } else if prog_if == 0x00 {
            "UHCI (USB 1.x)"@
        } else {
            "USB Controller"@
        }
    } else if class == 0x03 && subclass == 0x00 {
        "VGA Compatible"@
    } else if class == 0x01 && subclass == 0x01 {
        "IDE Controller"@
    } else if class == 0x01 && subclass == 0x06 {
        "SATA Controller"@
    } else if class == 0x02 && subclass == 0x00 {
        "Ethernet Controller"@
    } else if class == 0x06 && subclass == 0x00 {
        "Host Bridge"@
    } else if class == 0x06 && subclass == 0x01 {
        "ISA Bridge"@
    } else if class == 0x06 && subclass == 0x04 {
        "PCI-to-PCI Bridge"@
    } else if class == 0x04 && subclass == 0x01 {
        "Multimedia audio"@
    } else {
        "Other"@
    }
}

impl PciDevice {
    /// The function at a location, by its header.
    pub fn from_location(bus: u8, device: u8, function: u8, h: Header) -> (r: Self)
        ensures
            r == device_of(bus, device, function, h),
    {
        PciDevice {
            bus,
            device,
            function,
            vendor_id: (h.id % 0x1_0000) as u16,
            device_id: (h.id / 0x1_0000) as u16,
            class: (h.class / 0x100_0000) as u8,
            subclass: (h.class / 0x1_0000 % 256) as u8,
            prog_if: (h.class / 256 % 256) as u8,
            revision: (h.class % 256) as u8,
            bar0: h.bar0,
            bar1: h.bar1,
        }
    }

    /// The base address of the registers in memory, if the first base address
    /// register is one for memory; a 64-bit one continues in the second.
    pub fn mmio_base(&self) -> (r: Option<u64>)
        ensures
            r == if self.bar0 % 2 == 1 {
                None
            } else if (self.bar0 / 2) % 4 == 2 {
                Some((self.bar0 - self.bar0 % 16 + 0x1_0000_0000 * self.bar1) as u64)
            } else {
                Some((self.bar0 - self.bar0 % 16) as u64)
            },
    {
        proof {
            lemma_word_fields(self.bar0);
        }
        if self.bar0 & 1 == 0 {
            let base: u32 = self.bar0 & 0xFFFF_FFF0;
            if self.bar0 & 0b110 == 0b100 {
                Some(base as u64 + 0x1_0000_0000 * (self.bar1 as u64))
            } else {
                Some(base as u64)
            }
        } else {
            None
        }
    }

    /// The I/O port base, if the first base address register is one for I/O.
    pub fn io_base(&self) -> (r: Option<u16>)
        ensures
            r == if self.bar0 % 2 == 1 {
                Some((self.bar0 % 0x1_0000 - self.bar0 % 4) as u16)
            } else {
                None
            },
    {
        proof {
            lemma_word_fields(self.bar0);
        }
        if self.bar0 & 1 == 1 {
            Some((self.bar0 & 0xFFFC) as u16)
        } else {
            None
        }
    }

    /// Enables I/O space, memory space and bus mastering in the command
    /// register, whose value was read: required before a device may DMA.
    pub fn enable_bus_master(&self, cmd_status: u32) -> (r: Vec<IoOp>)
        ensures
            r@ == seq![
                IoOp::Out32 {
                    port: CONFIG_ADDRESS,
                    value: config_address(self.bus, self.device, self.function, 0x04),
                },
                IoOp::Out32 { port: CONFIG_DATA, value: cmd_status | 7 },
            ],
    {
        proof {
            lemma_word_fields(cmd_status);
        }
        let cmd: u32 = (cmd_status & 0xFFFF) | 0b111;
        pci_config_write(
            self.bus,
            self.device,
            self.function,
            0x04,
            (cmd_status & 0xFFFF_0000) | cmd,
        )
    }

    /// Human-readable class name.
    pub fn class_name(&self) -> (r: &'static str)
        ensures
            r@ == class_text(self.class, self.subclass, self.prog_if),
    {
        match (self.class, self.subclass, self.prog_if) {
            (0x0C, 0x03, 0x30) => "xHCI (USB 3.x)",
            (0x0C, 0x03, 0x20) => "EHCI (USB 2.0)",
            (0x0C, 0x03, 0x10) => "OHCI (USB 1.x)",
            (0x0C, 0x03, 0x00) => "UHCI (USB 1.x)",
            (0x0C, 0x03, _) => "USB Controller",
            (0x03, 0x00, _) => "VGA Compatible",
            (0x01, 0x01, _) => "IDE Controller",
            (0x01, 0x06, _) => "SATA Controller",
            (0x02, 0x00, _) => "Ethernet Controller",
            (0x06, 0x00, _) => "Host Bridge",
            (0x06, 0x01, _) => "ISA Bridge",
            (0x06, 0x04, _) => "PCI-to-PCI Bridge",
            (0x04, 0x01, _) => "Multimedia audio",
            _ => "Other",
        }
    }
}

/// The functions that exist among the first `n` of bus 0, in order: device
/// by device, function by function.
pub open spec fn present(headers: Seq<Header>, n: int) -> Seq<PciDevice>
    decreases n,
{
    if n <= 0 {
        Seq::empty()
    } else {
        let d = device_of(0, ((n - 1) / 8) as u8, ((n - 1) % 8) as u8, headers[n - 1]);
        let before = present(headers, n - 1);
        if d.vendor_id != 0xFFFF {
            before.push(d)
        } else {
            before
        }
    }
}

/// The first `n` items.
pub open spec fn at_most(s: Seq<PciDevice>, n: int) -> Seq<PciDevice> {
    if s.len() <= n {
        s
    } else {
        s.take(n)
    }
}

/// Scans bus 0, given the headers of its 32 devices of 8 functions each, and
/// returns the functions that exist, at most 64.
pub fn scan(headers: &[Header]) -> (r: heapless::Vec<PciDevice, 64>)
    requires
        headers@.len() == 256,
    ensures
        devices64(r) == at_most(present(headers@, 256), 64),
{
    let mut devices = devices64_new();
    let mut n: usize = 0;
    while n < 256
        invariant
            n <= 256,
            headers@.len() == 256,
            devices64(devices) == at_most(present(headers@, n as int), 64),
        decreases 256 - n,
    {
        let dev = PciDevice::from_location(0, (n / 8) as u8, (n % 8) as u8, headers[n]);
        let ghost before = present(headers@, n as int);
        if dev.vendor_id != 0xFFFF {
            let _ = devices64_push(&mut devices, dev);
            proof {
                if before.len() >= 64 {
                    assert(before.push(dev).take(64) =~= before.take(64));
                    assert(before.take(before.len() as int) =~= before);
                }
            }
        }
        n += 1;
    }
    devices
}

/// A USB host controller.
pub open spec fn is_usb(d: PciDevice) -> bool {
    d.class == 0x0C && d.subclass == 0x03
}

/// Finds the USB controllers among the functions of bus 0, at most 8.
pub fn find_usb_controllers(all: &heapless::Vec<PciDevice, 64>) -> (r: heapless::Vec<PciDevice, 8>)
    ensures
        devices8(r) == at_most(devices64(*all).filter(|d: PciDevice| is_usb(d)), 8),
{
    let mut usb = devices8_new();
    let list = devices64_slice(all);
    let ghost p = |d: PciDevice| is_usb(d);
    let mut i: usize = 0;
    assert(list@.take(0).filter(p) =~= Seq::<PciDevice>::empty()) by {
        reveal(Seq::filter);
    }
    while i < list.len()
        invariant
            i <= list@.len(),
            p == (|d: PciDevice| is_usb(d)),
            devices8(usb) == at_most(list@.take(i as int).filter(p), 8),
        decreases list@.len() - i,
    {
        let d = list[i];
        let ghost before = list@.take(i as int).filter(p);
        proof {
            reveal(Seq::filter);
            assert(list@.take(i as int + 1).drop_last() =~= list@.take(i as int));
        }
        if d.class == 0x0C && d.subclass == 0x03 {
            let _ = devices8_push(&mut usb, d);
            proof {
                if before.len() >= 8 {
                    assert(before.push(d).take(8) =~= before.take(8));
                    assert(before.take(before.len() as int) =~= before);
                }
            }
        }
        i += 1;
    }
    assert(list@.take(i as int) =~= list@);
    usb
}

/// What the configuration words of a device say: vendor in the low half of the
/// first, device in the high half; class, subclass, interface and revision in
/// the bytes of the class word from the top down.
pub proof fn law_configuration_words(bus: u8, device: u8, function: u8, h: Header)
    ensures
        ({
            let d = device_of(bus, device, function, h);
            &&& d.bus == bus && d.device == device && d.function == function
            &&& h.id == d.vendor_id + 0x1_0000 * d.device_id
            &&& h.class == d.revision + 0x100 * d.prog_if + 0x1_0000 * d.subclass + 0x100_0000 * d.class
            &&& d.bar0 == h.bar0 && d.bar1 == h.bar1
        }),
{
}

/// Every function of the bus that answers is found, at its place: header `i`
/// is that of function `i % 8` of device `i / 8`; one that reads all ones
/// where the vendor is has no device.
pub proof fn law_every_function_is_found(headers: Seq<Header>, n: int, k: int)
    requires
        0 <= k < n <= headers.len() <= 256,
    ensures
        headers[k].id % 0x1_0000 != 0xFFFF ==> present(headers, n).contains(
            device_of(0, (k / 8) as u8, (k % 8) as u8, headers[k]),
        ),
        present(headers, 0).len() == 0,
        headers[n - 1].id % 0x1_0000 == 0xFFFF ==> present(headers, n) == present(headers, n - 1),
        headers[n - 1].id % 0x1_0000 != 0xFFFF ==> present(headers, n).len() == present(
            headers,
            n - 1,
        ).len() + 1,
        forall|j: int|
            0 <= j < present(headers, n).len() ==> (#[trigger] present(headers, n)[j]).vendor_id != 0xFFFF
                && present(headers, n)[j].bus == 0,
    decreases n,
{
    let before = present(headers, n - 1);
    let all = present(headers, n);
    if n > 1 {
        law_every_function_is_found(headers, n - 1, if k < n - 1 {
            k
        } else {
            0
        });
    }
    if headers[n - 1].id % 0x1_0000 != 0xFFFF {
        let d = device_of(0, ((n - 1) / 8) as u8, ((n - 1) % 8) as u8, headers[n - 1]);
        assert(all == before.push(d));
        assert(all[before.len() as int] == d);
        if k < n - 1 && headers[k].id % 0x1_0000 != 0xFFFF {
            let e = device_of(0, (k / 8) as u8, (k % 8) as u8, headers[k]);
            let j = choose|j: int| 0 <= j < before.len() && before[j] == e;
            assert(all[j] == e);
        }
    }
}

/// No more than a number of devices are kept: the first.
pub proof fn law_first_devices_are_kept(s: Seq<PciDevice>, n: int)
    requires
        0 <= n,
    ensures
        at_most(s, n).is_prefix_of(s),
        s.len() <= n ==> at_most(s, n) == s,
        s.len() > n ==> at_most(s, n).len() == n,
{
}

/// USB controllers are those of class 0x0C, subclass 3; the interface tells
/// which kind.
pub proof fn law_usb_controllers(d: PciDevice)
    ensures
        is_usb(d) <==> d.class == 0x0C && d.subclass == 3,
        is_usb(d) && d.prog_if == 0x30 ==> class_text(d.class, d.subclass, d.prog_if) == "xHCI (USB 3.x)"@,
        is_usb(d) && d.prog_if == 0x20 ==> class_text(d.class, d.subclass, d.prog_if) == "EHCI (USB 2.0)"@,
        is_usb(d) && d.prog_if == 0x10 ==> class_text(d.class, d.subclass, d.prog_if) == "OHCI (USB 1.x)"@,
        is_usb(d) && d.prog_if == 0 ==> class_text(d.class, d.subclass, d.prog_if) == "UHCI (USB 1.x)"@,
        class_text(2, 0, d.prog_if) == "Ethernet Controller"@,
        class_text(1, 6, d.prog_if) == "SATA Controller"@,
        class_text(1, 1, d.prog_if) == "IDE Controller"@,
        class_text(3, 0, d.prog_if) == "VGA Compatible"@,
        class_text(6, 0, d.prog_if) == "Host Bridge"@,
        class_text(6, 1, d.prog_if) == "ISA Bridge"@,
        class_text(6, 4, d.prog_if) == "PCI-to-PCI Bridge"@,
        class_text(4, 1, d.prog_if) == "Multimedia audio"@,
        CONFIG_ADDRESS == 0xCF8 && CONFIG_DATA == 0xCFC,
{
}

} // verus!
