//! xHCI host controller: initialization, port detection and the command ring.

pub mod context;
pub mod trb;

use vstd::prelude::*;
use vstd::string::StringSliceAdditionalSpecFns;
use vstd::utf8::encode_utf8;
use crate::inline::{devices8, devices8_slice};
use crate::io::{one_op, IoOp};
use crate::pci::PciDevice;
use crate::serial::{decimal, hex_digits, write_dec, write_hex_byte, write_hex_digits};
use context::speed_text;
use trb::{control_word, is_trb, make_enable_slot, make_link, Trb, TrbType, TRB_SIZE};

verus! {

/// Device slots that are supported.
pub const MAX_SLOTS: usize = 32;

pub const USBCMD_OFF: u64 = 0x00;

pub const USBSTS_OFF: u64 = 0x04;

pub const CRCR_OFF: u64 = 0x0C;

pub const DCBAAP_OFF: u64 = 0x14;

pub const CONFIG_OFF: u64 = 0x18;

pub const PORTSC_BASE_OFF: u64 = 0x20;

pub const USBCMD_RUN_STOP: u32 = 0x1;

pub const USBCMD_HCRST: u32 = 0x2;

pub const USBSTS_HCHALTED: u32 = 0x1;

pub const USBSTS_CNR: u32 = 0x800;

pub const PORTSC_CCS: u32 = 0x1;

pub const PORTSC_PED: u32 = 0x2;

pub const PORTSC_PP: u32 = 0x200;

pub const PORTSC_CSC: u32 = 0x2_0000;

pub const PORT_SPEED_SUPER: u32 = 4;

/// Times that a status is polled for reset and start.
pub const POLLS: u32 = 100_000;

/// Times that a status is polled for readiness.
pub const READY_POLLS: u32 = 1_000_000;

/// Where the memory-mapped registers of a controller lie, and its limits.
#[derive(Debug, Clone, Copy, PartialEq, Eq, Structural)]
pub struct XhciMmio {
    pub base: u64,
    pub cap_len: u8,
    pub op_regs: u64,
    pub doorbell_off: u64,
    pub rt_regs_off: u64,
    pub max_slots: u8,
    pub max_ports: u8,
    pub port_reg_set_size: u32,
}

/// The reads of the capability registers at `base`: their length, the
/// structural and the capability parameters, the offsets of doorbells and
/// runtime registers, and the version of the interface.
pub fn capability_ops(base: u64) -> (r: Vec<IoOp>)
    requires
        base <= u64::MAX - 0x5_0000_0000,
    ensures
        r@ == seq![
            IoOp::Read8 { addr: base },
            IoOp::Read32 { addr: (base + 0x04) as u64 },
            IoOp::Read32 { addr: (base + 0x10) as u64 },
            IoOp::Read32 { addr: (base + 0x14) as u64 },
            IoOp::Read32 { addr: (base + 0x18) as u64 },
            IoOp::Read16 { addr: (base + 0x02) as u64 },
        ],
{
    let mut ops: Vec<IoOp> = Vec::new();
    ops.push(IoOp::Read8 { addr: base });
    ops.push(IoOp::Read32 { addr: base + 0x04 });
    ops.push(IoOp::Read32 { addr: base + 0x10 });
    ops.push(IoOp::Read32 { addr: base + 0x14 });
    ops.push(IoOp::Read32 { addr: base + 0x18 });
    ops.push(IoOp::Read16 { addr: base + 0x02 });
    ops
}

/// The report of a controller's capabilities: the length of their registers,
/// the version of the interface, and the limits.
pub fn capability_report(mmio: &XhciMmio, version: u16) -> (r: Vec<u8>)
    ensures
        r@ == "[xHCI] Capability length: ".spec_bytes() + decimal(mmio.cap_len as nat)
            + "\n[xHCI] xHCI version: ".spec_bytes() + hex_digits(version as int, 16)
            + "\n[xHCI] Max slots: ".spec_bytes() + decimal(mmio.max_slots as nat)
            + "\n[xHCI] Max ports: ".spec_bytes() + decimal(mmio.max_ports as nat) + "\n".spec_bytes(),
{
    let mut out: Vec<u8> = Vec::new();
    out.extend_from_slice("[xHCI] Capability length: ".as_bytes());
    write_dec(&mut out, mmio.cap_len as u64);
    out.extend_from_slice("\n[xHCI] xHCI version: ".as_bytes());
    write_hex_digits(&mut out, version as u64, 16);
    out.extend_from_slice("\n[xHCI] Max slots: ".as_bytes());
    write_dec(&mut out, mmio.max_slots as u64);
    out.extend_from_slice("\n[xHCI] Max ports: ".as_bytes());
    write_dec(&mut out, mmio.max_ports as u64);
    out.extend_from_slice("\n".as_bytes());
    out
}

impl XhciMmio {
    /// Registers of all ports lie inside the address space.
    pub open spec fn wf(self) -> bool {
        &&& self.op_regs <= u64::MAX - 0x10_0000
        &&& self.doorbell_off <= u64::MAX - 0x4_0000_0000
        &&& self.port_reg_set_size < 256
    }

    /// The layout that the capability registers tell: their length, the
    /// structural parameters, and the offsets of doorbells and runtime
    /// registers.
    pub fn new(base: u64, cap_len: u8, hcs1: u32, dboff: u32, rtsoff: u32) -> (r: Self)
        requires
            base <= u64::MAX - 0x5_0000_0000,
        ensures
            r.wf(),
            r == (XhciMmio {
                base,
                cap_len,
                op_regs: (base + cap_len) as u64,
                doorbell_off: (base + dboff) as u64,
                rt_regs_off: (base + rtsoff) as u64,
                max_slots: (hcs1 % 256) as u8,
                max_ports: (hcs1 / 0x100_0000) as u8,
                port_reg_set_size: (hcs1 / 0x1_0000 % 256) as u32,
            }),
    {
        XhciMmio {
            base,
            cap_len,
            op_regs: base + cap_len as u64,
            doorbell_off: base + dboff as u64,
            rt_regs_off: base + rtsoff as u64,
            max_slots: (hcs1 % 256) as u8,
            max_ports: (hcs1 / 0x100_0000) as u8,
            port_reg_set_size: hcs1 / 0x1_0000 % 256,
        }
    }

    /// Address of the status register of a port.
    pub open spec fn port_addr(self, port: u8) -> int {
        self.op_regs + PORTSC_BASE_OFF + port * self.port_reg_set_size * 4
    }

    /// Address of the status register of a port.
    pub fn port_reg(&self, port: u8) -> (r: u64)
        requires
            self.wf(),
        ensures
            r == self.port_addr(port),
    {
        assert(port * self.port_reg_set_size <= 255 * 255) by (nonlinear_arith)
            requires
                port <= 255,
                self.port_reg_set_size <= 255,
        ;
        self.op_regs + (PORTSC_BASE_OFF + port as u64 * self.port_reg_set_size as u64 * 4)
    }

    /// Rings a doorbell.
    pub fn write_doorbell(&self, target: u32, value: u32) -> (r: IoOp)
        requires
            self.wf(),
        ensures
            r == (IoOp::Write32 { addr: (self.doorbell_off + target * 4) as u64, value }),
    {
        IoOp::Write32 { addr: self.doorbell_off + target as u64 * 4, value }
    }

    /// Whether the controller is ready: neither halted nor not ready.
    pub fn wait_ready(&self, usbsts: u32) -> (r: bool)
        ensures
            r == (usbsts & USBSTS_HCHALTED == 0 && usbsts & USBSTS_CNR == 0),
    {
        usbsts & USBSTS_HCHALTED == 0 && usbsts & USBSTS_CNR == 0
    }

    /// Stops the controller: clears the run bit.
    pub fn stop(&self) -> (r: IoOp)
        requires
            self.wf(),
        ensures
            r == (IoOp::Modify32 { addr: self.op_regs, clear: USBCMD_RUN_STOP, set: 0 }),
    {
        IoOp::Modify32 { addr: self.op_regs + USBCMD_OFF, clear: USBCMD_RUN_STOP, set: 0 }
    }
}

/// What the status register of a port says.
#[derive(Debug, Clone, Copy, PartialEq, Eq, Structural)]
pub struct PortStatus {
    pub connected: bool,
    pub enabled: bool,
    pub speed: u32,
    pub changed: bool,
    pub powered: bool,
}

/// What the status register `portsc` says.
pub open spec fn port_status(portsc: u32) -> PortStatus {
    PortStatus {
        connected: portsc & PORTSC_CCS != 0,
        enabled: portsc & PORTSC_PED != 0,
        speed: (portsc / 1024 % 16) as u32,
        changed: portsc & PORTSC_CSC != 0,
        powered: portsc & PORTSC_PP != 0,
    }
}

/// The writes to the status register of a port at `addr`: a change on a
/// connected port is cleared, and a port without power that is not
/// SuperSpeed is powered on.
pub open spec fn port_ops(addr: u64, portsc: u32) -> Seq<IoOp> {
    let s = port_status(portsc);
    let clear = if s.connected && s.changed {
        seq![IoOp::Write32 { addr, value: portsc | PORTSC_CSC }]
    } else {
        Seq::empty()
    };
    if !s.powered && s.speed != PORT_SPEED_SUPER {
        clear.push(IoOp::Write32 { addr, value: portsc | PORTSC_PP })
    } else {
        clear
    }
}

/// The name of a port's speed.
pub open spec fn port_speed_text(speed: int) -> Seq<char> {
    if speed <= 4 {
        speed_text(speed)
    } else {
        "Unknown"@
    }
}

/// The speed of a port in words.
pub fn port_speed_str(speed: u32) -> (r: &'static str)
    ensures
        r@ == port_speed_text(speed as int),
{
    match speed {
        1 => "Full (12 Mbps)",
        2 => "Low (1.5 Mbps)",
        3 => "High (480 Mbps)",
        4 => "Super (5 Gbps)",
        _ => "Unknown",
    }
}

/// Looks at a port: what its status register says, and the writes to it.
pub fn enumerate_ports(mmio: &XhciMmio, port: u8, portsc: u32) -> (r: (PortStatus, Vec<IoOp>))
    requires
        mmio.wf(),
    ensures
        r.0 == port_status(portsc),
        r.1@ == port_ops(mmio.port_addr(port) as u64, portsc),
{
    let addr: u64 = mmio.port_reg(port);
    let s = PortStatus {
        connected: portsc & PORTSC_CCS != 0,
        enabled: portsc & PORTSC_PED != 0,
        speed: portsc / 1024 % 16,
        changed: portsc & PORTSC_CSC != 0,
        powered: portsc & PORTSC_PP != 0,
    };
    let mut ops: Vec<IoOp> = Vec::new();
    if s.connected && s.changed {
        ops.push(IoOp::Write32 { addr, value: portsc | PORTSC_CSC });
    }
    if !s.powered && s.speed != PORT_SPEED_SUPER {
        ops.push(IoOp::Write32 { addr, value: portsc | PORTSC_PP });
    }
    assert(ops@ =~= port_ops(addr, portsc));
    (s, ops)
}

/// The line on what is connected to a port.
pub open spec fn port_line(port: u8, s: PortStatus) -> Seq<u8> {
    let head = "[xHCI] Port ".spec_bytes() + decimal(port as nat);
    if s.connected {
        head + ": connected, speed=".spec_bytes() + encode_utf8(port_speed_text(s.speed as int))
            + if s.enabled { Seq::empty() } else { " (disabled)".spec_bytes() }
            + if s.changed { " [CHANGED]".spec_bytes() } else { Seq::empty() } + "\n".spec_bytes()
    } else {
        head + ": nothing connected\n".spec_bytes()
    }
}

/// The report of a port: what is connected to it, and that its power is
/// switched on where it was off.
pub open spec fn port_text(port: u8, s: PortStatus) -> Seq<u8> {
    port_line(port, s) + if s.powered {
        Seq::empty()
    } else {
        "[xHCI] Port ".spec_bytes() + decimal(port as nat) + ": powering on...\n".spec_bytes()
    }
}

/// The report of a port.
pub fn port_report(port: u8, s: &PortStatus) -> (r: Vec<u8>)
    ensures
        r@ == port_text(port, *s),
{
    let mut out: Vec<u8> = Vec::new();
    out.extend_from_slice("[xHCI] Port ".as_bytes());
    write_dec(&mut out, port as u64);
    if s.connected {
        out.extend_from_slice(": connected, speed=".as_bytes());
        out.extend_from_slice(port_speed_str(s.speed).as_bytes());
        if !s.enabled {
            out.extend_from_slice(" (disabled)".as_bytes());
        }
        if s.changed {
            out.extend_from_slice(" [CHANGED]".as_bytes());
        }
        out.extend_from_slice("\n".as_bytes());
    } else {
        out.extend_from_slice(": nothing connected\n".as_bytes());
    }
    assert(out@ =~= port_line(port, *s));
    if !s.powered {
        out.extend_from_slice("[xHCI] Port ".as_bytes());
        write_dec(&mut out, port as u64);
        out.extend_from_slice(": powering on...\n".as_bytes());
    }
    assert(out@ =~= port_text(port, *s));
    out
}

/// TRBs in a ring.
pub const RING_SIZE: usize = 16;

/// A ring of TRBs in one segment.
#[derive(Debug, Clone, Copy)]
pub struct TrbRing {
    /// Physical address of the ring.
    pub phys_addr: u64,
    pub entries: [Trb; RING_SIZE],
    /// Where the next TRB goes.
    pub enqueue_idx: usize,
    /// Cycle bit of the current round.
    pub cycle: bool,
}

impl TrbRing {
    pub open spec fn inv(self) -> bool {
        self.enqueue_idx < RING_SIZE
    }

    /// An empty ring, in its first round.
    pub fn new(phys_addr: u64) -> (r: Self)
        ensures
            r.inv(),
            r.phys_addr == phys_addr,
            r.entries@ =~= Seq::new(
                RING_SIZE as nat,
                |i: int| (Trb { params: 0, status: 0, control: 0 }),
            ),
            r.enqueue_idx == 0,
            r.cycle,
    {
        TrbRing { phys_addr, entries: [Trb::zero(); 16], enqueue_idx: 0, cycle: true }
    }

    /// Address where the next TRB goes.
    pub fn ptr_value(&self) -> (r: u64)
        requires
            self.inv(),
            self.phys_addr <= u64::MAX - 256,
        ensures
            r == self.phys_addr + self.enqueue_idx * TRB_SIZE,
    {
        self.phys_addr + self.enqueue_idx as u64 * 16
    }

    /// Address of the ring, with the cycle bit.
    pub fn base_ptr_with_dcs(&self) -> (r: u64)
        ensures
            r == self.phys_addr | (if self.cycle { 1u64 } else { 0u64 }),
    {
        let bit: u64 = if self.cycle { 1 } else { 0 };
        self.phys_addr | bit
    }

    /// `post` is this ring with `trb` added: at the next place, with the cycle
    /// bit of the round; the last place gets a link to the start, where a new
    /// round begins with the other cycle bit.
    pub open spec fn enqueued(self, trb: Trb, post: TrbRing) -> bool {
        if self.enqueue_idx < RING_SIZE - 1 {
            &&& post.entries@ == self.entries@.update(
                self.enqueue_idx as int,
                trb.with_cycle(self.cycle),
            )
            &&& post.enqueue_idx == self.enqueue_idx + 1
            &&& post.cycle == self.cycle
            &&& post.phys_addr == self.phys_addr
        } else {
            &&& post.entries@.len() == RING_SIZE
            &&& post.entries@[0] == trb.with_cycle(!self.cycle)
            &&& is_trb(
                post.entries@[RING_SIZE - 1],
                TrbType::Link,
                self.cycle,
                self.phys_addr,
                0,
            )
            &&& post.entries@[RING_SIZE - 1].control == control_word(TrbType::Link, self.cycle, 4u32 | 0u32)
            &&& forall|i: int|
                0 < i < RING_SIZE - 1 ==> #[trigger] post.entries@[i] == self.entries@[i]
            &&& post.enqueue_idx == 1
            &&& post.cycle == !self.cycle
            &&& post.phys_addr == self.phys_addr
        }
    }

    /// Adds a TRB.
    pub fn enqueue(&mut self, trb: &Trb) -> (r: bool)
        requires
            old(self).inv(),
        ensures
            final(self).inv(),
            r,
            old(self).enqueued(*trb, *final(self)),
    {
        if self.enqueue_idx >= 15 {
            let link = make_link(self.phys_addr, self.cycle, true, false);
            self.entries[self.enqueue_idx] = link;
            self.cycle = !self.cycle;
            let mut copy: Trb = *trb;
            copy.set_cycle_bit(self.cycle);
            self.entries[0] = copy;
            self.enqueue_idx = 1;
        } else {
            let mut copy: Trb = *trb;
            copy.set_cycle_bit(self.cycle);
            self.entries[self.enqueue_idx] = copy;
            self.enqueue_idx = self.enqueue_idx + 1;
        }
        true
    }
}

/// A TRB that is added lies in the ring with the cycle bit of its round, and
/// every round of the ring has another cycle bit than the one before.
pub proof fn law_enqueued_trb_carries_cycle(a: TrbRing, t: Trb, b: TrbRing)
    requires
        a.inv(),
        a.enqueued(t, b),
    ensures
        b.entries@[b.enqueue_idx - 1] == t.with_cycle(b.cycle),
        b.entries@[b.enqueue_idx - 1].params == t.params,
        b.entries@[b.enqueue_idx - 1].cycle() == b.cycle,
        b.cycle != a.cycle <==> a.enqueue_idx == RING_SIZE - 1,
{
}

/// USB device speed.
#[derive(Debug, Clone, Copy, PartialEq, Eq, Structural)]
pub enum UsbSpeed {
    /// 1.5 Mbps.
    Low,
    /// 12 Mbps.
    Full,
    /// 480 Mbps.
    High,
    /// 5 Gbps.
    Super,
    /// 10 Gbps.
    SuperPlus,
}

/// USB device descriptor.
#[derive(Debug, Clone, Copy, PartialEq, Eq, Structural)]
pub struct DeviceDescriptor {
    pub length: u8,
    pub descriptor_type: u8,
    pub usb_spec: u16,
    pub device_class: u8,
    pub device_subclass: u8,
    pub device_protocol: u8,
    pub max_packet_size: u8,
    pub vendor_id: u16,
    pub product_id: u16,
    pub device_release: u16,
    pub manufacturer: u8,
    pub product: u8,
    pub serial: u8,
    pub num_configurations: u8,
}

impl DeviceDescriptor {
    /// The device in words.
    pub fn describe(&self) -> (r: Vec<u8>)
        ensures
            r@ == "USB Device: vendor=0x".spec_bytes() + hex_digits(self.vendor_id as int, 4)
                + " product=0x".spec_bytes() + hex_digits(self.product_id as int, 4)
                + " class=0x".spec_bytes() + hex_digits(self.device_class as int, 2)
                + " max_pkt=".spec_bytes() + decimal(self.max_packet_size as nat),
    {
        let mut out: Vec<u8> = Vec::new();
        out.extend_from_slice("USB Device: vendor=0x".as_bytes());
        write_hex_digits(&mut out, self.vendor_id as u64, 4);
        out.extend_from_slice(" product=0x".as_bytes());
        write_hex_digits(&mut out, self.product_id as u64, 4);
        out.extend_from_slice(" class=0x".as_bytes());
        write_hex_byte(&mut out, self.device_class);
        out.extend_from_slice(" max_pkt=".as_bytes());
        write_dec(&mut out, self.max_packet_size as u64);
        out
    }
}

/// USB HID descriptor.
#[derive(Debug, Clone, Copy, PartialEq, Eq, Structural)]
pub struct HidDescriptor {
    pub length: u8,
    pub descriptor_type: u8,
    pub hid_spec: u16,
    pub country_code: u8,
    pub num_descriptors: u8,
    pub descriptor_type_hid: u8,
    pub descriptor_length: u16,
}

/// An initialized controller.
pub struct XhciDriver {
    pub mmio: XhciMmio,
    pub dcbaap_phys: u64,
    pub command_ring: TrbRing,
    pub initialized: bool,
}

/// Why a controller is not initialized.
#[derive(Debug, Clone, Copy, PartialEq, Eq, Structural)]
pub enum XhciError {
    ResetFailed,
    StartFailed,
    NotReady,
}

/// How far the initialization of a controller has come; `polls` is the number
/// of times that the status may still be read.
#[derive(Debug, Clone, Copy, PartialEq, Eq, Structural)]
pub enum XhciPhase {
    /// Reset was asked for; the controller is to halt.
    Reset { polls: u32 },
    /// Start was asked for; the controller is to run.
    Start { polls: u32 },
    /// The controller is to be ready.
    Ready { polls: u32 },
    /// The controller runs.
    Running,
    Failed(XhciError),
}

impl XhciPhase {
    /// The phase after the status register was read as `usbsts`.
    pub open spec fn next(self, usbsts: u32) -> XhciPhase {
        let halted = usbsts & USBSTS_HCHALTED != 0;
        match self {
            XhciPhase::Reset { polls } => if halted {
                XhciPhase::Start { polls: POLLS }
            } else if polls > 1 {
                XhciPhase::Reset { polls: (polls - 1) as u32 }
            } else {
                XhciPhase::Failed(XhciError::ResetFailed)
            },
            XhciPhase::Start { polls } => if !halted {
                XhciPhase::Ready { polls: READY_POLLS }
            } else if polls > 1 {
                XhciPhase::Start { polls: (polls - 1) as u32 }
            } else {
                XhciPhase::Failed(XhciError::StartFailed)
            },
            XhciPhase::Ready { polls } => if !halted && usbsts & USBSTS_CNR == 0 {
                XhciPhase::Running
            } else if polls > 1 {
                XhciPhase::Ready { polls: (polls - 1) as u32 }
            } else {
                XhciPhase::Failed(XhciError::NotReady)
            },
            XhciPhase::Running => XhciPhase::Running,
            XhciPhase::Failed(e) => XhciPhase::Failed(e),
        }
    }
}

/// The accesses at the start of the initialization: reset.
pub fn begin_init(mmio: &XhciMmio) -> (r: (XhciPhase, Vec<IoOp>))
    requires
        mmio.wf(),
    ensures
        r.0 == (XhciPhase::Reset { polls: POLLS }),
        r.1@ == seq![IoOp::Write32 { addr: mmio.op_regs, value: USBCMD_HCRST }],
{
    (
        XhciPhase::Reset { polls: POLLS },
        one_op(IoOp::Write32 { addr: mmio.op_regs + USBCMD_OFF, value: USBCMD_HCRST }),
    )
}

/// The initialization goes on after the status register was read: the next
/// phase, and the accesses to make in it. The register is read again while
/// the controller is to reset, start or be ready.
pub fn step_init(mmio: &XhciMmio, phase: XhciPhase, usbsts: u32) -> (r: (XhciPhase, Vec<IoOp>))
    requires
        mmio.wf(),
    ensures
        r.0 == phase.next(usbsts),
        r.1@ == if phase is Reset && r.0 is Start {
            seq![IoOp::Write32 { addr: mmio.op_regs, value: USBCMD_RUN_STOP }]
        } else {
            Seq::<IoOp>::empty()
        },
{
    let halted = usbsts & USBSTS_HCHALTED != 0;
    let mut ops: Vec<IoOp> = Vec::new();
    let next = match phase {
        XhciPhase::Reset { polls } => if halted {
            ops.push(IoOp::Write32 { addr: mmio.op_regs + USBCMD_OFF, value: USBCMD_RUN_STOP });
            XhciPhase::Start { polls: POLLS }
        } else if polls > 1 {
            XhciPhase::Reset { polls: polls - 1 }
        } else {
            XhciPhase::Failed(XhciError::ResetFailed)
        },
        XhciPhase::Start { polls } => if !halted {
            XhciPhase::Ready { polls: READY_POLLS }
        } else if polls > 1 {
            XhciPhase::Start { polls: polls - 1 }
        } else {
            XhciPhase::Failed(XhciError::StartFailed)
        },
        XhciPhase::Ready { polls } => if mmio.wait_ready(usbsts) {
            XhciPhase::Running
        } else if polls > 1 {
            XhciPhase::Ready { polls: polls - 1 }
        } else {
            XhciPhase::Failed(XhciError::NotReady)
        },
        XhciPhase::Running => XhciPhase::Running,
        XhciPhase::Failed(e) => XhciPhase::Failed(e),
    };
    (next, ops)
}

/// The command that enables a slot.
pub open spec fn enable_slot_trb(cycle: bool) -> Trb {
    Trb { params: 0, status: 0, control: control_word(TrbType::EnableSlot, cycle, 0) }
}

impl XhciDriver {
    /// The driver of a controller that runs, and the accesses that hand it the
    /// command ring, the device contexts and the number of slots.
    pub fn init(mmio: XhciMmio, dcbaap_phys: u64, cmd_ring_phys: u64) -> (r: (Self, Vec<IoOp>))
        requires
            mmio.wf(),
        ensures
            r.0.mmio == mmio,
            r.0.dcbaap_phys == dcbaap_phys,
            r.0.initialized,
            r.0.command_ring.inv(),
            r.0.command_ring.phys_addr == cmd_ring_phys,
            r.0.command_ring.entries@ =~= Seq::new(
                RING_SIZE as nat,
                |i: int| (Trb { params: 0, status: 0, control: 0 }),
            ),
            r.0.command_ring.enqueue_idx == 0,
            r.0.command_ring.cycle,
            r.1@ == seq![
                IoOp::Write64 {
                    addr: (mmio.op_regs + CRCR_OFF) as u64,
                    value: cmd_ring_phys | 1,
                },
                IoOp::Write64 { addr: (mmio.op_regs + DCBAAP_OFF) as u64, value: dcbaap_phys },
                IoOp::Write32 {
                    addr: (mmio.op_regs + CONFIG_OFF) as u64,
                    value: mmio.max_slots as u32,
                },
            ],
    {
        let mut ops: Vec<IoOp> = Vec::new();
        ops.push(IoOp::Write64 { addr: mmio.op_regs + CRCR_OFF, value: cmd_ring_phys | 1 });
        ops.push(IoOp::Write64 { addr: mmio.op_regs + DCBAAP_OFF, value: dcbaap_phys });
        ops.push(
            IoOp::Write32 { addr: mmio.op_regs + CONFIG_OFF, value: mmio.max_slots as u32 },
        );
        let driver = XhciDriver {
            mmio,
            dcbaap_phys,
            command_ring: TrbRing::new(cmd_ring_phys),
            initialized: true,
        };
        (driver, ops)
    }

    /// Puts a command in the command ring and rings the controller's
    /// doorbell.
    pub fn send_command(&mut self, trb: &Trb) -> (r: (bool, Vec<IoOp>))
        requires
            old(self).mmio.wf(),
            old(self).command_ring.inv(),
        ensures
            final(self).mmio == old(self).mmio,
            final(self).dcbaap_phys == old(self).dcbaap_phys,
            final(self).initialized == old(self).initialized,
            final(self).command_ring.inv(),
            old(self).command_ring.enqueued(*trb, final(self).command_ring),
            r.0,
            r.1@ == seq![IoOp::Write32 { addr: old(self).mmio.doorbell_off, value: 0 }],
    {
        let ok = self.command_ring.enqueue(trb);
        (ok, one_op(self.mmio.write_doorbell(0, 0)))
    }

    /// Enables a device slot: the first one.
    pub fn enable_slot(&mut self) -> (r: (Option<u8>, Vec<IoOp>))
        requires
            old(self).mmio.wf(),
            old(self).command_ring.inv(),
        ensures
            final(self).mmio == old(self).mmio,
            final(self).dcbaap_phys == old(self).dcbaap_phys,
            final(self).initialized == old(self).initialized,
            final(self).command_ring.inv(),
            r.0 == Some(1u8),
            r.1@ == seq![IoOp::Write32 { addr: old(self).mmio.doorbell_off, value: 0 }],
            old(self).command_ring.enqueued(
                enable_slot_trb(old(self).command_ring.cycle),
                final(self).command_ring,
            ),
    {
        let tx = make_enable_slot(self.command_ring.cycle);
        let (ok, ops) = self.send_command(&tx);
        assert(tx == enable_slot_trb(old(self).command_ring.cycle));
        if ok {
            (Some(1), ops)
        } else {
            (None, ops)
        }
    }
}

/// What is done with a USB controller.
#[derive(Debug, Clone, Copy, PartialEq, Eq, Structural)]
pub enum ControllerPlan {
    /// An xHCI controller, to be initialized.
    Init { mmio_base: u64 },
    /// An xHCI controller without memory-mapped registers.
    NoMmio,
    /// Another kind of controller.
    Skip,
}

/// What is done with a USB controller.
pub open spec fn plan_for(d: PciDevice) -> ControllerPlan {
    if d.prog_if != 0x30 || d.class != 0x0C || d.subclass != 0x03 {
        ControllerPlan::Skip
    } else if d.bar0 % 2 == 1 {
        ControllerPlan::NoMmio
    } else if (d.bar0 / 2) % 4 == 2 {
        ControllerPlan::Init {
            mmio_base: (d.bar0 - d.bar0 % 16 + 0x1_0000_0000 * d.bar1) as u64,
        }
    } else {
        ControllerPlan::Init { mmio_base: (d.bar0 - d.bar0 % 16) as u64 }
    }
}

/// What is done with each of the USB controllers that were found.
pub fn init_xhci(controllers: &heapless::Vec<PciDevice, 8>) -> (r: Vec<ControllerPlan>)
    ensures
        r@ == devices8(*controllers).map_values(|d: PciDevice| plan_for(d)),
{
    let list = devices8_slice(controllers);
    let mut plans: Vec<ControllerPlan> = Vec::new();
    let mut i: usize = 0;
    while i < list.len()
        invariant
            i <= list@.len(),
            plans@ =~= list@.take(i as int).map_values(|d: PciDevice| plan_for(d)),
        decreases list@.len() - i,
    {
        let d = list[i];
        let plan = if d.prog_if == 0x30 && d.class == 0x0C && d.subclass == 0x03 {
            match d.mmio_base() {
                Some(mmio_base) => ControllerPlan::Init { mmio_base },
                None => ControllerPlan::NoMmio,
            }
        } else {
            ControllerPlan::Skip
        };
        plans.push(plan);
        i += 1;
    }
    assert(list@.take(i as int) =~= list@);
    plans
}

/// The port registers begin 0x20 bytes into the operational ones, and each port's lie as many words
/// after the last one's as the controller says.
pub proof fn law_port_registers(m: XhciMmio, port: u8)
    ensures
        m.port_addr(0) == m.op_regs + 0x20,
        port < 255 ==> m.port_addr((port + 1) as u8) - m.port_addr(port) == 4 * m.port_reg_set_size,
{
    assert((port + 1) * m.port_reg_set_size * 4 == port * m.port_reg_set_size * 4 + 4
        * m.port_reg_set_size) by (nonlinear_arith);
}

/// A port's word says what the port is: bit 0 that something is there, bit 1 that it is on, bit 9
/// that it has power, bit 17 that something came or went, and bits 10 to 13 how fast it is.
pub proof fn law_port_status(portsc: u32)
    ensures
        port_status(portsc).connected <==> portsc & 0x1 != 0,
        port_status(portsc).enabled <==> portsc & 0x2 != 0,
        port_status(portsc).powered <==> portsc & 0x200 != 0,
        port_status(portsc).changed <==> portsc & 0x2_0000 != 0,
        port_status(portsc).speed == portsc / 1024 % 16,
{
}

/// A change on a connected port is acknowledged by writing bit 17 back, a port without power that is
/// not of speed 4 is given it by writing bit 9, in this order, and nothing else is written.
pub proof fn law_port_writes(addr: u64, portsc: u32)
    ensures
        ({
            let told = portsc & 0x1 != 0 && portsc & 0x2_0000 != 0;
            let dark = portsc & 0x200 == 0 && portsc / 1024 % 16 != 4;
            let ops = port_ops(addr, portsc);
            &&& ops.len() == (if told { 1int } else { 0 }) + (if dark { 1int } else { 0 })
            &&& told ==> ops[0] == (IoOp::Write32 { addr, value: portsc | 0x2_0000 })
            &&& dark ==> ops.last() == (IoOp::Write32 { addr, value: portsc | 0x200 })
        }),
{
}

/// Ports name the speeds 1 to 4 as devices do, and no other.
pub proof fn law_port_speeds(speed: int)
    ensures
        1 <= speed <= 4 ==> port_speed_text(speed) == speed_text(speed),
        speed > 4 ==> port_speed_text(speed) == "Unknown"@,
        speed < 1 ==> port_speed_text(speed) == "Unknown"@,
{
}

/// A ring takes a command at its place, as it is but for the cycle bit, and goes one place on. In the
/// sixteenth place stands not the command but a link back to the start, which has the old cycle bit
/// and turns it over; the command then stands in the first place. No other place is touched.
pub proof fn law_ring_takes_a_command(a: TrbRing, t: Trb, b: TrbRing)
    requires
        a.inv(),
        a.enqueued(t, b),
    ensures
        b.phys_addr == a.phys_addr,
        b.entries@.len() == 16,
        a.enqueue_idx < 15 ==> {
            &&& b.enqueue_idx == a.enqueue_idx + 1
            &&& b.cycle == a.cycle
            &&& b.entries@[a.enqueue_idx as int] == t.with_cycle(a.cycle)
            &&& forall|i: int|
                0 <= i < 16 && i != a.enqueue_idx ==> #[trigger] b.entries@[i] == a.entries@[i]
        },
        a.enqueue_idx == 15 ==> {
            &&& b.enqueue_idx == 1
            &&& b.cycle == !a.cycle
            &&& b.entries@[0] == t.with_cycle(!a.cycle)
            &&& b.entries@[15].params == a.phys_addr
            &&& b.entries@[15].status == 0
            &&& b.entries@[15].type_code() == 6
            &&& b.entries@[15].cycle() == a.cycle
            &&& b.entries@[15].control & 0xFFFF_03FE == 4
            &&& forall|i: int| 0 < i < 15 ==> #[trigger] b.entries@[i] == a.entries@[i]
        },
{
    trb::lemma_free_bits();
    trb::law_control_word(TrbType::Link, a.cycle, 4);
}

/// A phase that has just begun goes on to the next as soon as the controller's status allows it: out
/// of reset when it has halted, out of the start when it no longer is, to running when it is also
/// ready. Each poll in vain costs one, and the last one in vain fails with that phase's error.
pub proof fn law_controller_comes_up(polls: u32, usbsts: u32)
    ensures
        ({
            let halted = usbsts & 0x1 != 0;
            let busy = usbsts & 0x800 != 0;
            let reset = (XhciPhase::Reset { polls }).next(usbsts);
            let start = (XhciPhase::Start { polls }).next(usbsts);
            let ready = (XhciPhase::Ready { polls }).next(usbsts);
            &&& halted ==> reset == (XhciPhase::Start { polls: 100_000 })
            &&& !halted ==> start == (XhciPhase::Ready { polls: 1_000_000 })
            &&& !halted && !busy <==> ready is Running
            &&& !halted && polls > 1 ==> reset == (XhciPhase::Reset { polls: (polls - 1) as u32 })
            &&& halted && polls > 1 ==> start == (XhciPhase::Start { polls: (polls - 1) as u32 })
            &&& (halted || busy) && polls > 1 ==> ready == (XhciPhase::Ready {
                polls: (polls - 1) as u32,
            })
            &&& !halted && polls <= 1 ==> reset == XhciPhase::Failed(XhciError::ResetFailed)
            &&& halted && polls <= 1 ==> start == XhciPhase::Failed(XhciError::StartFailed)
            &&& (halted || busy) && polls <= 1 ==> ready == XhciPhase::Failed(XhciError::NotReady)
        }),
        XhciPhase::Running.next(usbsts) is Running,
{
}

/// A failed controller stays failed, with the error it failed with.
pub proof fn law_failure_stays(e: XhciError, usbsts: u32)
    ensures
        XhciPhase::Failed(e).next(usbsts) == XhciPhase::Failed(e),
{
}

/// The registers and bits by which the controller is run, and the size of a ring.
pub proof fn law_controller_registers()
    ensures
        USBCMD_OFF == 0x00,
        USBSTS_OFF == 0x04,
        CRCR_OFF == 0x0C,
        DCBAAP_OFF == 0x14,
        CONFIG_OFF == 0x18,
        PORTSC_BASE_OFF == 0x20,
        USBCMD_RUN_STOP == 1,
        USBCMD_HCRST == 2,
        USBSTS_HCHALTED == 1,
        USBSTS_CNR == 0x800,
        PORTSC_CCS == 1,
        PORTSC_PED == 2,
        PORTSC_PP == 0x200,
        PORTSC_CSC == 0x2_0000,
        POLLS == 100_000,
        READY_POLLS == 1_000_000,
        RING_SIZE == 16,
        TRB_SIZE == 16,
{
}

/// The command that asks for a slot is of kind 9, carries the ring's cycle bit and nothing else.
pub proof fn law_enable_slot_command(cycle: bool)
    ensures
        enable_slot_trb(cycle).params == 0,
        enable_slot_trb(cycle).status == 0,
        enable_slot_trb(cycle).type_code() == 9,
        enable_slot_trb(cycle).cycle() == cycle,
        enable_slot_trb(cycle).control & 0xFFFF_03FE == 0,
{
    trb::lemma_free_bits();
    trb::law_control_word(TrbType::EnableSlot, cycle, 0);
}

/// A device is driven exactly if it is a USB controller of this kind (class 0x0C, subclass 0x03,
/// interface 0x30) whose first base register points into memory: at an address of 32 bits, or of 64
/// where its type says so, with the four low bits left out.
pub proof fn law_controllers_that_are_driven(d: PciDevice)
    ensures
        ({
            let ours = d.class == 0x0C && d.subclass == 0x03 && d.prog_if == 0x30;
            &&& plan_for(d) is Skip <==> !ours
            &&& plan_for(d) is NoMmio <==> ours && d.bar0 % 2 == 1
            &&& plan_for(d) matches ControllerPlan::Init { mmio_base } ==> {
                &&& mmio_base % 16 == 0
                &&& mmio_base % 0x1_0000_0000 == d.bar0 - d.bar0 % 16
                &&& mmio_base / 0x1_0000_0000 == if d.bar0 / 2 % 4 == 2 { d.bar1 as int } else { 0 }
            }
        }),
{
}

} // verus!
