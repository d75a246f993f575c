//! PCIe: a generic host bridge with memory-mapped configuration space.
//!
//! PCI I/O space is the bridge's memory-mapped I/O window, with port `n` at
//! the window's start and `n`.

use vstd::prelude::*;
use vstd::string::StringSliceAdditionalSpecFns;
use super::fdt::PciHost;
use crate::io::IoOp;
use crate::line::{blank, BoundedLine, LineSize};
use crate::serial::{decimal, hex};

verus! {

/// Where the bridge's configuration and I/O spaces lie; no bridge where
/// `ecam` is 0.
#[derive(Debug, Clone, Copy, PartialEq, Eq, Structural)]
pub struct Ecam {
    pub ecam: u64,
    pub bus_start: u8,
    pub bus_end: u8,
    /// Where port 0 is.
    pub io_base: u64,
}

/// Addresses from which base address registers are assigned.
#[derive(Debug, Clone, Copy, PartialEq, Eq, Structural)]
pub struct BarWindows {
    pub io_next: u64,
    pub io_end: u64,
    pub mem_next: u64,
    pub mem_end: u64,
}

impl Ecam {
    /// All of configuration space and of I/O space has addresses.
    pub open spec fn wf(self) -> bool {
        &&& self.ecam <= u64::MAX - 0x1000_0000
        &&& self.io_base <= u64::MAX - 0x1_0000
    }

    /// Before a bridge is found.
    pub fn absent() -> (r: Self)
        ensures
            r == (Ecam { ecam: 0, bus_start: 0, bus_end: 0, io_base: 0 }),
            r.wf(),
    {
        Ecam { ecam: 0, bus_start: 0, bus_end: 0, io_base: 0 }
    }
}

/// Records a bridge whose configuration space is mapped, and gives the
/// addresses from which base address registers are assigned: the I/O window
/// without port 0 and the ports of old devices, and the 32-bit memory window
/// if its addresses are the CPU's.
pub fn init(host: &PciHost) -> (r: (Ecam, BarWindows))
    requires
        host.io.1 + 0x1000 <= u64::MAX,
        host.io.1 + host.io.2 <= u64::MAX,
        host.mem32.0 == host.mem32.1 ==> host.mem32.1 + host.mem32.2 <= u64::MAX,
    ensures
        r.0.ecam == host.ecam,
        r.0.bus_start == host.bus_start,
        r.0.bus_end == host.bus_end,
        r.0.io_base == (host.io.0 - host.io.1) % 0x1_0000_0000_0000_0000,
        r.1 == (BarWindows {
            io_next: (host.io.1 + 0x1000) as u64,
            io_end: (host.io.1 + host.io.2) as u64,
            mem_next: host.mem32.1,
            mem_end: if host.mem32.0 == host.mem32.1 {
                (host.mem32.1 + host.mem32.2) as u64
            } else {
                host.mem32.1
            },
        }),
{
    let (io_cpu, io_pci, io_size) = host.io;
    let (mem_cpu, mem_pci, mem_size) = host.mem32;
    let mem_usable = mem_size != 0 && mem_cpu == mem_pci;
    let ecam = Ecam {
        ecam: host.ecam,
        bus_start: host.bus_start,
        bus_end: host.bus_end,
        io_base: io_cpu.wrapping_sub(io_pci),
    };
    let windows = BarWindows {
        io_next: io_pci + 0x1000,
        io_end: io_pci + io_size,
        mem_next: mem_pci,
        mem_end: if mem_usable {
            mem_pci + mem_size
        } else {
            mem_pci
        },
    };
    (ecam, windows)
}

/// Address of a configuration register; `None` where there is no bridge or no
/// such function.
pub open spec fn config_register(e: Ecam, bus: u8, device: u8, function: u8, register: u8) -> Option<int> {
    if e.ecam == 0 || bus < e.bus_start || bus > e.bus_end || device > 31 || function > 7 {
        None
    } else {
        Some(
            e.ecam + (bus - e.bus_start) * 0x10_0000 + device * 0x8000 + function * 0x1000 + register,
        )
    }
}

fn cfg_addr(e: &Ecam, bus: u8, device: u8, function: u8, register: u8) -> (r: Option<u64>)
    requires
        e.wf(),
    ensures
        match r {
            None => config_register(*e, bus, device, function, register) is None,
            Some(a) => config_register(*e, bus, device, function, register) == Some(a as int),
        },
{
    if e.ecam == 0 || bus < e.bus_start || bus > e.bus_end || device > 31 || function > 7 {
        return None;
    }
    Some(
        e.ecam + (bus - e.bus_start) as u64 * 0x10_0000 + device as u64 * 0x8000 + function as u64
            * 0x1000 + register as u64,
    )
}

/// The read of a configuration register; `None` where it reads as all ones.
pub fn pci_config_read(e: &Ecam, bus: u8, device: u8, function: u8, register: u8) -> (r: Option<IoOp>)
    requires
        e.wf(),
    ensures
        r == match config_register(*e, bus, device, function, register) {
            Some(a) => Some(IoOp::Read32 { addr: a as u64 }),
            None => None,
        },
{
    match cfg_addr(e, bus, device, function, register) {
        Some(addr) => Some(IoOp::Read32 { addr }),
        None => None,
    }
}

/// The write of a configuration register; `None` where nothing is written.
pub fn pci_config_write(e: &Ecam, bus: u8, device: u8, function: u8, register: u8, value: u32) -> (r:
    Option<IoOp>)
    requires
        e.wf(),
    ensures
        r == match config_register(*e, bus, device, function, register) {
            Some(a) => Some(IoOp::Write32 { addr: a as u64, value }),
            None => None,
        },
{
    match cfg_addr(e, bus, device, function, register) {
        Some(addr) => Some(IoOp::Write32 { addr, value }),
        None => None,
    }
}

/// Functions do not share configuration registers: the same register of two
/// functions of the bridge lies at two addresses.
pub proof fn law_functions_have_their_own_registers(
    e: Ecam,
    bus: u8,
    device: u8,
    function: u8,
    register: u8,
    bus2: u8,
    device2: u8,
    function2: u8,
    register2: u8,
)
    requires
        config_register(e, bus, device, function, register) is Some,
        config_register(e, bus, device, function, register) == config_register(
            e,
            bus2,
            device2,
            function2,
            register2,
        ),
    ensures
        bus == bus2 && device == device2 && function == function2 && register == register2,
{
    let b = bus - e.bus_start;
    let b2 = bus2 - e.bus_start;
    assert(b * 0x10_0000 + device * 0x8000 + function * 0x1000 + register == b2 * 0x10_0000
        + device2 * 0x8000 + function2 * 0x1000 + register2);
    assert(b == b2);
    assert(device == device2);
    assert(function == function2);
}

/// Where a port is.
fn io_addr(e: &Ecam, port: u16) -> (r: u64)
    requires
        e.wf(),
    ensures
        r == e.io_base + port,
{
    e.io_base + port as u64
}

pub fn io_read8(e: &Ecam, port: u16) -> (r: IoOp)
    requires
        e.wf(),
    ensures
        r == (IoOp::Read8 { addr: (e.io_base + port) as u64 }),
{
    IoOp::Read8 { addr: io_addr(e, port) }
}

pub fn io_read16(e: &Ecam, port: u16) -> (r: IoOp)
    requires
        e.wf(),
    ensures
        r == (IoOp::Read16 { addr: (e.io_base + port) as u64 }),
{
    IoOp::Read16 { addr: io_addr(e, port) }
}

pub fn io_read32(e: &Ecam, port: u16) -> (r: IoOp)
    requires
        e.wf(),
    ensures
        r == (IoOp::Read32 { addr: (e.io_base + port) as u64 }),
{
    IoOp::Read32 { addr: io_addr(e, port) }
}

pub fn io_write8(e: &Ecam, port: u16, v: u8) -> (r: IoOp)
    requires
        e.wf(),
    ensures
        r == (IoOp::Write8 { addr: (e.io_base + port) as u64, value: v }),
{
    IoOp::Write8 { addr: io_addr(e, port), value: v }
}

pub fn io_write16(e: &Ecam, port: u16, v: u16) -> (r: IoOp)
    requires
        e.wf(),
    ensures
        r == (IoOp::Write16 { addr: (e.io_base + port) as u64, value: v }),
{
    IoOp::Write16 { addr: io_addr(e, port), value: v }
}

pub fn io_write32(e: &Ecam, port: u16, v: u32) -> (r: IoOp)
    requires
        e.wf(),
    ensures
        r == (IoOp::Write32 { addr: (e.io_base + port) as u64, value: v }),
{
    IoOp::Write32 { addr: io_addr(e, port), value: v }
}

/// What the console says of a bridge and of the number of base address
/// registers that were assigned, as it fits 160 bytes.
pub open spec fn bridge_text(host: PciHost, bars: u64) -> Seq<u8> {
    blank(160).put("[PCI] ECAM host bridge at 0x".spec_bytes()).put(hex(host.ecam as nat)).put(
        " (buses ".spec_bytes(),
    ).put(decimal(host.bus_start as nat)).put("-".spec_bytes()).put(
        decimal(host.bus_end as nat),
    ).put("); I/O window 0x".spec_bytes()).put(hex(host.io.0 as nat)).put(
        ", MMIO window 0x".spec_bytes(),
    ).put(hex(host.mem32.0 as nat)).put("; ".spec_bytes()).put(decimal(bars as nat)).put(
        " BARs assigned\n".spec_bytes(),
    ).bytes
}

/// What the console says of a bridge and of the number of base address
/// registers that were assigned.
pub fn bridge_line(host: &PciHost, bars: u64) -> (r: Vec<u8>)
    ensures
        r@ == bridge_text(*host, bars),
{
    let mut line = BoundedLine::new(LineSize::Bytes160);
    line.text("[PCI] ECAM host bridge at 0x");
    line.hex(host.ecam);
    line.text(" (buses ");
    line.dec(host.bus_start as u64);
    line.text("-");
    line.dec(host.bus_end as u64);
    line.text("); I/O window 0x");
    line.hex(host.io.0);
    line.text(", MMIO window 0x");
    line.hex(host.mem32.0);
    line.text("; ");
    line.dec(bars);
    line.text(" BARs assigned\n");
    line.into_bytes()
}

/// The registers of a function lie 4 KiB after those of the one before it, those of a device 32 KiB
/// and those of a bus 1 MiB, from the space's start on for the first bus. There are none without a
/// space, outside the bridge's buses, past device 31 and past function 7.
pub proof fn law_places_of_registers(e: Ecam, bus: u8, device: u8, function: u8, register: u8)
    ensures
        ({
            let r = config_register(e, bus, device, function, register);
            let there = e.ecam != 0 && e.bus_start <= bus <= e.bus_end && device < 32 && function < 8;
            &&& r is Some <==> there
            &&& there ==> e.ecam <= r->0 < e.ecam + 0x1000_0000
            &&& there && register > 0 ==> config_register(
                e,
                bus,
                device,
                function,
                (register - 1) as u8,
            ) == Some(r->0 - 1)
            &&& there && function > 0 ==> config_register(
                e,
                bus,
                device,
                (function - 1) as u8,
                register,
            ) == Some(r->0 - 0x1000)
            &&& there && device > 0 ==> config_register(
                e,
                bus,
                (device - 1) as u8,
                function,
                register,
            ) == Some(r->0 - 0x8000)
            &&& there && bus > e.bus_start ==> config_register(
                e,
                (bus - 1) as u8,
                device,
                function,
                register,
            ) == Some(r->0 - 0x10_0000)
            &&& there && bus == e.bus_start && device == 0 && function == 0 && register == 0 ==> r
                == Some(e.ecam as int)
        }),
{
}

} // verus!
