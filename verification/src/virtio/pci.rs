//! Legacy (0.9.5) virtio-pci transport over PCI I/O space.
//!
//! Transitional virtio-pci devices expose the legacy interface through an I/O
//! base address register: a fixed register layout, little-endian, and queue
//! addressing by page frame number.

use vstd::prelude::*;
use crate::io::{one_op, two_ops, IoOp};
use crate::pci::{config_address, PciDevice, CONFIG_ADDRESS, CONFIG_DATA};
use super::queue::Virtqueue;
use super::{Driver, Transport, STATUS_ACKNOWLEDGE, STATUS_DRIVER, STATUS_DRIVER_OK};

verus! {

pub const VIRTIO_VENDOR_ID: u16 = 0x1AF4;

pub const REG_HOST_FEATURES: u16 = 0x00;

pub const REG_GUEST_FEATURES: u16 = 0x04;

pub const REG_QUEUE_PFN: u16 = 0x08;

pub const REG_QUEUE_NUM: u16 = 0x0C;

pub const REG_QUEUE_SEL: u16 = 0x0E;

pub const REG_QUEUE_NOTIFY: u16 = 0x10;

pub const REG_STATUS: u16 = 0x12;

pub const REG_ISR: u16 = 0x13;

/// The device-specific configuration space starts here.
pub const REG_DEVICE_CONFIG: u16 = 0x14;

/// The legacy virtio-pci transport of a device.
#[derive(Debug, Clone, Copy, PartialEq, Eq, Structural)]
pub struct VirtioLegacy {
    /// Base of the I/O ports.
    pub io: u16,
}

/// The port of a register.
pub open spec fn port_of(t: VirtioLegacy, reg: u16) -> u16 {
    (t.io + reg) as u16
}

/// The accesses that take a device over: bus mastering on, then reset,
/// acknowledged, driven.
pub open spec fn claim_ops(dev: PciDevice, cmd_status: u32, t: VirtioLegacy) -> Seq<IoOp> {
    seq![
        IoOp::Out32 {
            port: CONFIG_ADDRESS,
            value: config_address(dev.bus, dev.device, dev.function, 0x04),
        },
        IoOp::Out32 { port: CONFIG_DATA, value: cmd_status | 7 },
        IoOp::Out8 { port: port_of(t, REG_STATUS), value: 0 },
        IoOp::Out8 { port: port_of(t, REG_STATUS), value: STATUS_ACKNOWLEDGE },
        IoOp::Out8 { port: port_of(t, REG_STATUS), value: STATUS_ACKNOWLEDGE | STATUS_DRIVER },
    ]
}

impl VirtioLegacy {
    /// All registers have ports.
    pub open spec fn ports_ok(self) -> bool {
        self.io + REG_ISR <= u16::MAX
    }

    /// Takes over a transitional virtio-pci device, whose command register
    /// was read. `None` where it has no I/O base address register (a modern
    /// device).
    pub fn new(dev: &PciDevice, cmd_status: u32) -> (r: Option<(Self, Vec<IoOp>)>)
        requires
            dev.bar0 % 2 == 1 ==> dev.bar0 % 0x1_0000 - dev.bar0 % 4 + REG_ISR <= u16::MAX,
        ensures
            r is Some <==> dev.bar0 % 2 == 1,
            match r {
                Some((t, ops)) => {
                    &&& t.ports_ok()
                    &&& t.io == dev.bar0 % 0x1_0000 - dev.bar0 % 4
                    &&& ops@ == claim_ops(*dev, cmd_status, t)
                },
                None => true,
            },
    {
        match dev.io_base() {
            None => None,
            Some(io) => {
                let t = VirtioLegacy { io };
                let mut ops = dev.enable_bus_master(cmd_status);
                ops.push(t.write_status(0));
                ops.push(t.write_status(STATUS_ACKNOWLEDGE));
                ops.push(t.write_status(STATUS_ACKNOWLEDGE | STATUS_DRIVER));
                assert(ops@ =~= claim_ops(*dev, cmd_status, t));
                Some((t, ops))
            },
        }
    }

    fn write_status(&self, status: u8) -> (r: IoOp)
        requires
            self.ports_ok(),
        ensures
            r == (IoOp::Out8 { port: port_of(*self, REG_STATUS), value: status }),
    {
        IoOp::Out8 { port: self.io + REG_STATUS, value: status }
    }

    /// Device feature bits.
    pub fn host_features(&self) -> (r: Vec<IoOp>)
        requires
            self.ports_ok(),
        ensures
            r@ == seq![IoOp::In32 { port: port_of(*self, REG_HOST_FEATURES) }],
    {
        one_op(IoOp::In32 { port: self.io + REG_HOST_FEATURES })
    }

    /// Accepts feature bits.
    pub fn set_guest_features(&self, features: u32) -> (r: Vec<IoOp>)
        requires
            self.ports_ok(),
        ensures
            r@ == seq![
                IoOp::Out32 { port: port_of(*self, REG_GUEST_FEATURES), value: features },
            ],
    {
        one_op(IoOp::Out32 { port: self.io + REG_GUEST_FEATURES, value: features })
    }

    /// Selects a virtqueue and reads its size (0 = no such queue).
    pub fn queue_size(&self, queue: u16) -> (r: Vec<IoOp>)
        requires
            self.ports_ok(),
        ensures
            r@ == seq![
                IoOp::Out16 { port: port_of(*self, REG_QUEUE_SEL), value: queue },
                IoOp::In16 { port: port_of(*self, REG_QUEUE_NUM) },
            ],
    {
        two_ops(
            IoOp::Out16 { port: self.io + REG_QUEUE_SEL, value: queue },
            IoOp::In16 { port: self.io + REG_QUEUE_NUM },
        )
    }

    /// Registers a virtqueue's ring memory by its page frame number.
    pub fn set_queue_pfn(&self, queue: u16, phys: u64) -> (r: Vec<IoOp>)
        requires
            self.ports_ok(),
        ensures
            r@ == seq![
                IoOp::Out16 { port: port_of(*self, REG_QUEUE_SEL), value: queue },
                IoOp::Out32 {
                    port: port_of(*self, REG_QUEUE_PFN),
                    value: (phys / 4096 % 0x1_0000_0000) as u32,
                },
            ],
    {
        two_ops(
            IoOp::Out16 { port: self.io + REG_QUEUE_SEL, value: queue },
            IoOp::Out32 {
                port: self.io + REG_QUEUE_PFN,
                value: (phys / 4096 % 0x1_0000_0000) as u32,
            },
        )
    }

    /// Tells the device that a queue has new buffers.
    pub fn notify(&self, queue: u16) -> (r: Vec<IoOp>)
        requires
            self.ports_ok(),
        ensures
            r@ == seq![IoOp::Out16 { port: port_of(*self, REG_QUEUE_NOTIFY), value: queue }],
    {
        one_op(IoOp::Out16 { port: self.io + REG_QUEUE_NOTIFY, value: queue })
    }

    /// Reads, and so acknowledges, the interrupt status.
    pub fn isr(&self) -> (r: Vec<IoOp>)
        requires
            self.ports_ok(),
        ensures
            r@ == seq![IoOp::In8 { port: port_of(*self, REG_ISR) }],
    {
        one_op(IoOp::In8 { port: self.io + REG_ISR })
    }

    /// Finishes initialization: the device is live after this.
    pub fn driver_ok(&self) -> (r: Vec<IoOp>)
        requires
            self.ports_ok(),
        ensures
            r@ == seq![
                IoOp::Out8 {
                    port: port_of(*self, REG_STATUS),
                    value: STATUS_ACKNOWLEDGE | STATUS_DRIVER | STATUS_DRIVER_OK,
                },
            ],
    {
        one_op(self.write_status(STATUS_ACKNOWLEDGE | STATUS_DRIVER | STATUS_DRIVER_OK))
    }

    /// Reads a byte of the configuration space.
    pub fn config_read8(&self, offset: u16) -> (r: Vec<IoOp>)
        requires
            self.io + REG_DEVICE_CONFIG + offset <= u16::MAX,
        ensures
            r@ == seq![IoOp::In8 { port: (self.io + REG_DEVICE_CONFIG + offset) as u16 }],
    {
        one_op(IoOp::In8 { port: self.io + REG_DEVICE_CONFIG + offset })
    }

    /// Reads a word of the configuration space.
    pub fn config_read32(&self, offset: u16) -> (r: Vec<IoOp>)
        requires
            self.io + REG_DEVICE_CONFIG + offset <= u16::MAX,
        ensures
            r@ == seq![IoOp::In32 { port: (self.io + REG_DEVICE_CONFIG + offset) as u16 }],
    {
        one_op(IoOp::In32 { port: self.io + REG_DEVICE_CONFIG + offset })
    }

    /// Reads the two words of a 64-bit field of the configuration space, low
    /// word first.
    pub fn config_read64(&self, offset: u16) -> (r: (Vec<IoOp>, Vec<IoOp>))
        requires
            self.io + REG_DEVICE_CONFIG + offset + 4 <= u16::MAX,
        ensures
            r.0@ == seq![IoOp::In32 { port: (self.io + REG_DEVICE_CONFIG + offset) as u16 }],
            r.1@ == seq![IoOp::In32 { port: (self.io + REG_DEVICE_CONFIG + offset + 4) as u16 }],
    {
        (self.config_read32(offset), self.config_read32(offset + 4))
    }
}

impl Transport for VirtioLegacy {
    open spec fn wf(&self) -> bool {
        self.ports_ok()
    }

    open spec fn config_ok(&self, offset: int) -> bool {
        self.io + REG_DEVICE_CONFIG + offset <= u16::MAX
    }

    open spec fn host_features_ops(&self) -> Seq<IoOp> {
        seq![IoOp::In32 { port: port_of(*self, REG_HOST_FEATURES) }]
    }

    open spec fn set_guest_features_ops(&self, features: u32) -> Seq<IoOp> {
        seq![IoOp::Out32 { port: port_of(*self, REG_GUEST_FEATURES), value: features }]
    }

    open spec fn queue_max_ops(&self, queue: u16) -> Seq<IoOp> {
        seq![
            IoOp::Out16 { port: port_of(*self, REG_QUEUE_SEL), value: queue },
            IoOp::In16 { port: port_of(*self, REG_QUEUE_NUM) },
        ]
    }

    open spec fn queue_limit_of(&self, raw: u32) -> u16 {
        (raw % 0x1_0000) as u16
    }

    open spec fn setup_queue_ops(&self, queue: u16, size: u16, addrs: (u64, u64, u64)) -> Seq<IoOp> {
        seq![
            IoOp::Out16 { port: port_of(*self, REG_QUEUE_SEL), value: queue },
            IoOp::Out32 {
                port: port_of(*self, REG_QUEUE_PFN),
                value: (addrs.0 / 4096 % 0x1_0000_0000) as u32,
            },
        ]
    }

    open spec fn notify_ops(&self, queue: u16) -> Seq<IoOp> {
        seq![IoOp::Out16 { port: port_of(*self, REG_QUEUE_NOTIFY), value: queue }]
    }

    open spec fn driver_ok_ops(&self) -> Seq<IoOp> {
        seq![
            IoOp::Out8 {
                port: port_of(*self, REG_STATUS),
                value: STATUS_ACKNOWLEDGE | STATUS_DRIVER | STATUS_DRIVER_OK,
            },
        ]
    }

    open spec fn config_read8_ops(&self, offset: u16) -> Seq<IoOp> {
        seq![IoOp::In8 { port: (self.io + REG_DEVICE_CONFIG + offset) as u16 }]
    }

    open spec fn config_read32_ops(&self, offset: u16) -> Seq<IoOp> {
        seq![IoOp::In32 { port: (self.io + REG_DEVICE_CONFIG + offset) as u16 }]
    }

    open spec fn is_modern(&self) -> bool {
        false
    }

    open spec fn text(&self) -> Seq<char> {
        "legacy virtio-pci"@
    }

    fn host_features(&self) -> (r: Vec<IoOp>) {
        VirtioLegacy::host_features(self)
    }

    fn set_guest_features(&self, features: u32) -> (r: Vec<IoOp>) {
        VirtioLegacy::set_guest_features(self, features)
    }

    fn queue_max(&self, queue: u16) -> (r: Vec<IoOp>) {
        self.queue_size(queue)
    }

    fn queue_limit(&self, raw: u32) -> (r: u16) {
        (raw % 0x1_0000) as u16
    }

    fn setup_queue(&self, queue: u16, vq: &Virtqueue) -> (r: Vec<IoOp>) {
        let (ring, _, _) = vq.ring_addrs();
        self.set_queue_pfn(queue, ring)
    }

    fn notify(&self, queue: u16) -> (r: Vec<IoOp>) {
        VirtioLegacy::notify(self, queue)
    }

    fn driver_ok(&self) -> (r: Vec<IoOp>) {
        VirtioLegacy::driver_ok(self)
    }

    fn config_read8(&self, offset: u16) -> (r: Vec<IoOp>) {
        VirtioLegacy::config_read8(self, offset)
    }

    fn config_read32(&self, offset: u16) -> (r: Vec<IoOp>) {
        VirtioLegacy::config_read32(self, offset)
    }

    fn modern(&self) -> (r: bool) {
        false
    }

    fn name(&self) -> (r: &'static str) {
        "legacy virtio-pci"
    }
}

/// The virtio device type of a PCI function: its transitional device ID, if
/// it is a virtio device of a kind that has a driver.
pub open spec fn driver_of(d: PciDevice) -> Option<Driver> {
    if d.vendor_id != VIRTIO_VENDOR_ID {
        None
    } else if d.device_id == 0x1000 {
        Some(Driver::Net)
    } else if d.device_id == 0x1001 {
        Some(Driver::Blk)
    } else {
        Some(Driver::Unhandled)
    }
}

/// The virtio devices among the first `n` functions, with their drivers.
pub open spec fn virtio_among(devices: Seq<PciDevice>, n: int) -> Seq<(int, Driver)>
    decreases n,
{
    if n <= 0 {
        Seq::empty()
    } else {
        let before = virtio_among(devices, n - 1);
        match driver_of(devices[n - 1]) {
            Some(d) => before.push((n - 1, d)),
            None => before,
        }
    }
}

/// Finds the virtio devices among the functions of the PCI bus: the index of
/// each, and its driver.
pub fn init(devices: &[PciDevice]) -> (r: Vec<(usize, Driver)>)
    ensures
        r@.map_values(|e: (usize, Driver)| (e.0 as int, e.1)) == virtio_among(
            devices@,
            devices@.len() as int,
        ),
{
    let mut found: Vec<(usize, Driver)> = Vec::new();
    let mut i: usize = 0;
    while i < devices.len()
        invariant
            i <= devices@.len(),
            found@.map_values(|e: (usize, Driver)| (e.0 as int, e.1)) =~= virtio_among(
                devices@,
                i as int,
            ),
        decreases devices@.len() - i,
    {
        let d = devices[i];
        if d.vendor_id == VIRTIO_VENDOR_ID {
            let driver = match d.device_id {
                0x1000 => Driver::Net,
                0x1001 => Driver::Blk,
                _ => Driver::Unhandled,
            };
            found.push((i, driver));
        }
        i += 1;
    }
    found
}

/// The registers of a legacy device, by their offsets: features at 0 and 4,
/// the queue's page at 8, its size at 12 and its number at 14, the doorbell at
/// 16, the status at 18, and the configuration from 20 on.
pub proof fn law_legacy_registers(t: VirtioLegacy, features: u32, queue: u16, size: u16, addrs: (u64, u64, u64))
    requires
        t.io + 20 <= u16::MAX,
    ensures
        t.host_features_ops() == seq![IoOp::In32 { port: t.io }],
        t.set_guest_features_ops(features) == seq![
            IoOp::Out32 { port: (t.io + 4) as u16, value: features },
        ],
        t.queue_max_ops(queue) == seq![
            IoOp::Out16 { port: (t.io + 14) as u16, value: queue },
            IoOp::In16 { port: (t.io + 12) as u16 },
        ],
        t.notify_ops(queue) == seq![IoOp::Out16 { port: (t.io + 16) as u16, value: queue }],
        t.driver_ok_ops() == seq![IoOp::Out8 { port: (t.io + 18) as u16, value: 7 }],
        t.config_read8_ops(0) == seq![IoOp::In8 { port: (t.io + 20) as u16 }],
        t.config_read32_ops(0) == seq![IoOp::In32 { port: (t.io + 20) as u16 }],
        ({
            let ops = t.setup_queue_ops(queue, size, addrs);
            &&& ops.len() == 2
            &&& ops[0] == (IoOp::Out16 { port: (t.io + 14) as u16, value: queue })
            &&& ops[1] is Out32 && ops[1]->Out32_port == t.io + 8
            &&& addrs.0 % 4096 == 0 && addrs.0 <= 0xFFF_FFFF_F000 ==> 4096 * ops[1]->Out32_value
                == addrs.0
        }),
{
    assert(1u8 | 2u8 | 4u8 == 7u8) by (bit_vector);
}

/// A byte of the configuration is read where it lies.
pub proof fn law_legacy_configuration(t: VirtioLegacy, offset: u16)
    requires
        t.io + 20 + offset <= u16::MAX,
    ensures
        t.config_read8_ops(offset) == seq![IoOp::In8 { port: (t.io + 20 + offset) as u16 }],
        t.config_read32_ops(offset) == seq![IoOp::In32 { port: (t.io + 20 + offset) as u16 }],
        t.queue_limit_of(0) == 0,
        t.queue_limit_of(offset as u32) == offset,
{
}

/// Claiming a device: it may use the bus, is reset, and is told that it was
/// seen and has a driver.
pub proof fn law_legacy_claim(dev: PciDevice, cmd_status: u32, t: VirtioLegacy)
    requires
        t.io + 20 <= u16::MAX,
    ensures
        ({
            let ops = claim_ops(dev, cmd_status, t);
            &&& ops.len() == 5
            &&& ops[0] == (IoOp::Out32 {
                port: 0xCF8,
                value: config_address(dev.bus, dev.device, dev.function, 4),
            })
            &&& ops[1] == (IoOp::Out32 { port: 0xCFC, value: cmd_status | 7 })
            &&& ops[2] == (IoOp::Out8 { port: (t.io + 18) as u16, value: 0 })
            &&& ops[3] == (IoOp::Out8 { port: (t.io + 18) as u16, value: 1 })
            &&& ops[4] == (IoOp::Out8 { port: (t.io + 18) as u16, value: 3 })
        }),
{
    assert(1u8 | 2u8 == 3u8) by (bit_vector);
}

/// Which devices have which driver: those of vendor 0x1AF4, 0x1000 being a
/// network device and 0x1001 a disk.
pub proof fn law_drivers(d: PciDevice)
    ensures
        d.vendor_id != 0x1AF4 <==> driver_of(d) is None,
        d.vendor_id == 0x1AF4 && d.device_id == 0x1000 <==> driver_of(d) == Some(Driver::Net),
        d.vendor_id == 0x1AF4 && d.device_id == 0x1001 <==> driver_of(d) == Some(Driver::Blk),
{
}

/// Every virtio device is found, in the order of the bus, with its driver, and
/// nothing else is.
pub proof fn law_every_virtio_device_is_found(devices: Seq<PciDevice>, n: int, k: int)
    requires
        0 <= k < n <= devices.len(),
    ensures
        driver_of(devices[k]) is Some ==> virtio_among(devices, n).contains((k, driver_of(devices[k])->0)),
        forall|j: int|
            0 <= j < virtio_among(devices, n).len() ==> {
                let e = #[trigger] virtio_among(devices, n)[j];
                0 <= e.0 < n && driver_of(devices[e.0]) == Some(e.1)
            },
        forall|i: int, j: int|
            0 <= i < j < virtio_among(devices, n).len() ==> (#[trigger] virtio_among(devices, n)[i]).0 < (
            #[trigger] virtio_among(devices, n)[j]).0,
    decreases n,
{
    let before = virtio_among(devices, n - 1);
    let all = virtio_among(devices, n);
    if n > 1 {
        law_every_virtio_device_is_found(devices, n - 1, if k < n - 1 {
            k
        } else {
            0
        });
    }
    if driver_of(devices[n - 1]) is Some {
        assert(all == before.push((n - 1, driver_of(devices[n - 1])->0)));
        assert(all[before.len() as int] == (n - 1, driver_of(devices[n - 1])->0));
        if k < n - 1 && driver_of(devices[k]) is Some {
            let e = (k, driver_of(devices[k])->0);
            let j = choose|j: int| 0 <= j < before.len() && before[j] == e;
            assert(all[j] == e);
        }
    }
}

/// A queue has as many entries as the low half of the device's word says.
pub proof fn law_queue_sizes(t: VirtioLegacy, raw: u32)
    ensures
        raw < 0x1_0000 ==> t.queue_limit_of(raw) == raw,
        (raw - t.queue_limit_of(raw)) % 0x1_0000 == 0,
{
}

} // verus!
