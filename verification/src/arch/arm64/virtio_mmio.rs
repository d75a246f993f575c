//! virtio-mmio transport: legacy (version 1) and modern (version 2) register
//! layouts.
//!
//! A slot with device ID 0 is empty. Legacy takes a page frame number with a
//! 4 KiB used-ring alignment, modern takes the three ring addresses.

use vstd::prelude::*;
use crate::io::{one_op, two_ops, IoOp};
use crate::virtio::queue::Virtqueue;
use crate::virtio::{
    Transport, STATUS_ACKNOWLEDGE, STATUS_DRIVER, STATUS_DRIVER_OK, STATUS_FEATURES_OK,
};

verus! {

/// "virt".
pub const MAGIC: u32 = 0x7472_6976;

pub const REG_MAGIC: u64 = 0x000;

pub const REG_VERSION: u64 = 0x004;

pub const REG_DEVICE_ID: u64 = 0x008;

pub const REG_DEVICE_FEATURES: u64 = 0x010;

pub const REG_DEVICE_FEATURES_SEL: u64 = 0x014;

pub const REG_DRIVER_FEATURES: u64 = 0x020;

pub const REG_DRIVER_FEATURES_SEL: u64 = 0x024;

pub const REG_GUEST_PAGE_SIZE: u64 = 0x028;

pub const REG_QUEUE_SEL: u64 = 0x030;

pub const REG_QUEUE_NUM_MAX: u64 = 0x034;

pub const REG_QUEUE_NUM: u64 = 0x038;

pub const REG_QUEUE_ALIGN: u64 = 0x03C;

pub const REG_QUEUE_PFN: u64 = 0x040;

pub const REG_QUEUE_READY: u64 = 0x044;

pub const REG_QUEUE_NOTIFY: u64 = 0x050;

pub const REG_STATUS: u64 = 0x070;

pub const REG_QUEUE_DESC_LOW: u64 = 0x080;

pub const REG_QUEUE_DESC_HIGH: u64 = 0x084;

pub const REG_QUEUE_DRIVER_LOW: u64 = 0x090;

pub const REG_QUEUE_DRIVER_HIGH: u64 = 0x094;

pub const REG_QUEUE_DEVICE_LOW: u64 = 0x0A0;

pub const REG_QUEUE_DEVICE_HIGH: u64 = 0x0A4;

pub const REG_CONFIG: u64 = 0x100;

/// Feature bit 32 (virtio 1.0), in the high word.
pub const F_VERSION_1_HI: u32 = 1;

/// A virtio-mmio device.
#[derive(Debug, Clone, Copy, PartialEq, Eq, Structural)]
pub struct VirtioMmio {
    pub base: u64,
    pub modern: bool,
}

/// A write to a register.
pub open spec fn wr_op(t: VirtioMmio, off: u64, value: u32) -> IoOp {
    IoOp::Write32 { addr: (t.base + off) as u64, value }
}

/// A read of a register.
pub open spec fn rd_op(t: VirtioMmio, off: u64) -> IoOp {
    IoOp::Read32 { addr: (t.base + off) as u64 }
}

/// Low 32 bits.
pub open spec fn low(x: u64) -> u32 {
    (x % 0x1_0000_0000) as u32
}

/// High 32 bits.
pub open spec fn high(x: u64) -> u32 {
    (x / 0x1_0000_0000) as u32
}

/// The accesses that take a device over: reset, acknowledged, driven, and for
/// a legacy device the page size.
pub open spec fn claim_ops(t: VirtioMmio) -> Seq<IoOp> {
    let status = seq![
        wr_op(t, REG_STATUS, 0),
        wr_op(t, REG_STATUS, STATUS_ACKNOWLEDGE as u32),
        wr_op(t, REG_STATUS, (STATUS_ACKNOWLEDGE | STATUS_DRIVER) as u32),
    ];
    if t.modern {
        status
    } else {
        status.push(wr_op(t, REG_GUEST_PAGE_SIZE, 4096))
    }
}

impl VirtioMmio {
    fn rd(&self, off: u64) -> (r: IoOp)
        requires
            self.base + off <= u64::MAX,
        ensures
            r == rd_op(*self, off),
    {
        IoOp::Read32 { addr: self.base + off }
    }

    fn wr(&self, off: u64, v: u32) -> (r: IoOp)
        requires
            self.base + off <= u64::MAX,
        ensures
            r == wr_op(*self, off, v),
    {
        IoOp::Write32 { addr: self.base + off, value: v }
    }

    /// Takes over the device at `base`, of the given version.
    pub fn new(base: u64, version: u32) -> (r: (Self, Vec<IoOp>))
        requires
            base + REG_CONFIG <= u64::MAX,
        ensures
            r.0 == (VirtioMmio { base, modern: version >= 2 }),
            r.1@ == claim_ops(r.0),
    {
        let t = VirtioMmio { base, modern: version >= 2 };
        let mut ops: Vec<IoOp> = Vec::new();
        ops.push(t.wr(REG_STATUS, 0));
        ops.push(t.wr(REG_STATUS, STATUS_ACKNOWLEDGE as u32));
        ops.push(t.wr(REG_STATUS, (STATUS_ACKNOWLEDGE | STATUS_DRIVER) as u32));
        if !t.modern {
            ops.push(t.wr(REG_GUEST_PAGE_SIZE, 4096));
        }
        assert(ops@ =~= claim_ops(t));
        (t, ops)
    }

    /// Whether the device took our feature set, by its status register.
    pub fn features_accepted(&self, status: u32) -> (r: bool)
        ensures
            r == (!self.modern || status & (STATUS_FEATURES_OK as u32) != 0),
    {
        !self.modern || status & (STATUS_FEATURES_OK as u32) != 0
    }
}

impl Transport for VirtioMmio {
    open spec fn wf(&self) -> bool {
        self.base + REG_CONFIG <= u64::MAX
    }

    open spec fn config_ok(&self, offset: int) -> bool {
        self.base + REG_CONFIG + offset <= u64::MAX
    }

    open spec fn host_features_ops(&self) -> Seq<IoOp> {
        seq![wr_op(*self, REG_DEVICE_FEATURES_SEL, 0), rd_op(*self, REG_DEVICE_FEATURES)]
    }

    open spec fn set_guest_features_ops(&self, features: u32) -> Seq<IoOp> {
        let low_word = seq![
            wr_op(*self, REG_DRIVER_FEATURES_SEL, 0),
            wr_op(*self, REG_DRIVER_FEATURES, features),
        ];
        if self.modern {
            low_word + seq![
                wr_op(*self, REG_DRIVER_FEATURES_SEL, 1),
                wr_op(*self, REG_DRIVER_FEATURES, F_VERSION_1_HI),
                wr_op(
                    *self,
                    REG_STATUS,
                    (STATUS_ACKNOWLEDGE | STATUS_DRIVER | STATUS_FEATURES_OK) as u32,
                ),
                rd_op(*self, REG_STATUS),
            ]
        } else {
            low_word
        }
    }

    open spec fn queue_max_ops(&self, queue: u16) -> Seq<IoOp> {
        seq![wr_op(*self, REG_QUEUE_SEL, queue as u32), rd_op(*self, REG_QUEUE_NUM_MAX)]
    }

    open spec fn queue_limit_of(&self, raw: u32) -> u16 {
        if raw < 256 {
            raw as u16
        } else {
            256
        }
    }

    open spec fn setup_queue_ops(&self, queue: u16, size: u16, addrs: (u64, u64, u64)) -> Seq<IoOp> {
        let head = seq![
            wr_op(*self, REG_QUEUE_SEL, queue as u32),
            wr_op(*self, REG_QUEUE_NUM, size as u32),
        ];
        if self.modern {
            head + seq![
                wr_op(*self, REG_QUEUE_DESC_LOW, low(addrs.0)),
                wr_op(*self, REG_QUEUE_DESC_HIGH, high(addrs.0)),
                wr_op(*self, REG_QUEUE_DRIVER_LOW, low(addrs.1)),
                wr_op(*self, REG_QUEUE_DRIVER_HIGH, high(addrs.1)),
                wr_op(*self, REG_QUEUE_DEVICE_LOW, low(addrs.2)),
                wr_op(*self, REG_QUEUE_DEVICE_HIGH, high(addrs.2)),
                wr_op(*self, REG_QUEUE_READY, 1),
            ]
        } else {
            head + seq![
                wr_op(*self, REG_QUEUE_ALIGN, 4096),
                wr_op(*self, REG_QUEUE_PFN, low((addrs.0 / 4096) as u64)),
            ]
        }
    }

    open spec fn notify_ops(&self, queue: u16) -> Seq<IoOp> {
        seq![IoOp::Barrier, wr_op(*self, REG_QUEUE_NOTIFY, queue as u32)]
    }

    open spec fn driver_ok_ops(&self) -> Seq<IoOp> {
        let s = STATUS_ACKNOWLEDGE | STATUS_DRIVER | STATUS_DRIVER_OK;
        seq![
            wr_op(
                *self,
                REG_STATUS,
                (if self.modern { s | STATUS_FEATURES_OK } else { s }) as u32,
            ),
        ]
    }

    open spec fn config_read8_ops(&self, offset: u16) -> Seq<IoOp> {
        seq![IoOp::Read8 { addr: (self.base + REG_CONFIG + offset) as u64 }]
    }

    open spec fn config_read32_ops(&self, offset: u16) -> Seq<IoOp> {
        seq![IoOp::Read32 { addr: (self.base + REG_CONFIG + offset) as u64 }]
    }

    open spec fn is_modern(&self) -> bool {
        self.modern
    }

    open spec fn text(&self) -> Seq<char> {
        if self.modern {
            "virtio-mmio v2"@
        } else {
            "virtio-mmio v1 (legacy)"@
        }
    }

    fn host_features(&self) -> (r: Vec<IoOp>) {
        two_ops(self.wr(REG_DEVICE_FEATURES_SEL, 0), self.rd(REG_DEVICE_FEATURES))
    }

    fn set_guest_features(&self, features: u32) -> (r: Vec<IoOp>) {
        let mut ops = two_ops(
            self.wr(REG_DRIVER_FEATURES_SEL, 0),
            self.wr(REG_DRIVER_FEATURES, features),
        );
        if self.modern {
            ops.push(self.wr(REG_DRIVER_FEATURES_SEL, 1));
            ops.push(self.wr(REG_DRIVER_FEATURES, F_VERSION_1_HI));
            ops.push(
                self.wr(
                    REG_STATUS,
                    (STATUS_ACKNOWLEDGE | STATUS_DRIVER | STATUS_FEATURES_OK) as u32,
                ),
            );
            ops.push(self.rd(REG_STATUS));
        }
        assert(ops@ =~= self.set_guest_features_ops(features));
        ops
    }

    fn queue_max(&self, queue: u16) -> (r: Vec<IoOp>) {
        two_ops(self.wr(REG_QUEUE_SEL, queue as u32), self.rd(REG_QUEUE_NUM_MAX))
    }

    fn queue_limit(&self, raw: u32) -> (r: u16) {
        if raw < 256 {
            raw as u16
        } else {
            256
        }
    }

    fn setup_queue(&self, queue: u16, vq: &Virtqueue) -> (r: Vec<IoOp>) {
        let (desc, avail, used) = vq.ring_addrs();
        let mut ops = two_ops(
            self.wr(REG_QUEUE_SEL, queue as u32),
            self.wr(REG_QUEUE_NUM, vq.size() as u32),
        );
        if self.modern {
            ops.push(self.wr(REG_QUEUE_DESC_LOW, (desc % 0x1_0000_0000) as u32));
            ops.push(self.wr(REG_QUEUE_DESC_HIGH, (desc / 0x1_0000_0000) as u32));
            ops.push(self.wr(REG_QUEUE_DRIVER_LOW, (avail % 0x1_0000_0000) as u32));
            ops.push(self.wr(REG_QUEUE_DRIVER_HIGH, (avail / 0x1_0000_0000) as u32));
            ops.push(self.wr(REG_QUEUE_DEVICE_LOW, (used % 0x1_0000_0000) as u32));
            ops.push(self.wr(REG_QUEUE_DEVICE_HIGH, (used / 0x1_0000_0000) as u32));
            ops.push(self.wr(REG_QUEUE_READY, 1));
        } else {
            ops.push(self.wr(REG_QUEUE_ALIGN, 4096));
            ops.push(self.wr(REG_QUEUE_PFN, (desc / 4096 % 0x1_0000_0000) as u32));
        }
        assert(ops@ =~= self.setup_queue_ops(queue, vq@.size, vq@.ring_addrs()));
        ops
    }

    fn notify(&self, queue: u16) -> (r: Vec<IoOp>) {
        // Ring updates must reach memory before the device is poked.
        two_ops(IoOp::Barrier, self.wr(REG_QUEUE_NOTIFY, queue as u32))
    }

    fn driver_ok(&self) -> (r: Vec<IoOp>) {
        let s: u8 = STATUS_ACKNOWLEDGE | STATUS_DRIVER | STATUS_DRIVER_OK;
        let s: u8 = if self.modern { s | STATUS_FEATURES_OK } else { s };
        one_op(self.wr(REG_STATUS, s as u32))
    }

    fn config_read8(&self, offset: u16) -> (r: Vec<IoOp>) {
        one_op(IoOp::Read8 { addr: self.base + REG_CONFIG + offset as u64 })
    }

    fn config_read32(&self, offset: u16) -> (r: Vec<IoOp>) {
        one_op(self.rd(REG_CONFIG + offset as u64))
    }

    fn modern(&self) -> (r: bool) {
        self.modern
    }

    fn name(&self) -> (r: &'static str) {
        if self.modern {
            "virtio-mmio v2"
        } else {
            "virtio-mmio v1 (legacy)"
        }
    }
}

/// What a slot's registers hold: magic, device ID and version.
#[derive(Debug, Clone, Copy, PartialEq, Eq, Structural)]
pub struct SlotRegs {
    pub magic: u32,
    pub device_id: u32,
    pub version: u32,
}

/// The device in a slot, by its registers: its ID and version. `None` for an
/// empty slot.
pub open spec fn occupied(s: SlotRegs) -> bool {
    s.magic == MAGIC && s.device_id != 0
}

/// The occupied ones among the first `n` slots.
pub open spec fn found_slots(regs: Seq<SlotRegs>, n: int) -> Seq<int>
    decreases n,
{
    if n <= 0 {
        Seq::empty()
    } else if occupied(regs[n - 1]) {
        found_slots(regs, n - 1).push(n - 1)
    } else {
        found_slots(regs, n - 1)
    }
}

/// Finds the occupied slots, given the registers of each: their indices.
pub fn probe(regs: &[SlotRegs]) -> (r: Vec<usize>)
    ensures
        r@.map_values(|i: usize| i as int) == found_slots(regs@, regs@.len() as int),
{
    let mut found: Vec<usize> = Vec::new();
    let mut i: usize = 0;
    while i < regs.len()
        invariant
            i <= regs@.len(),
            found@.map_values(|k: usize| k as int) =~= found_slots(regs@, i as int),
        decreases regs@.len() - i,
    {
        let s = regs[i];
        if s.magic == MAGIC && s.device_id != 0 {
            found.push(i);
        }
        i += 1;
    }
    found
}

/// The registers of a device in memory, by their offsets, as far as both
/// versions have them.
pub proof fn law_mmio_registers(t: VirtioMmio, queue: u16)
    requires
        t.base + 0x100 <= u64::MAX,
    ensures
        t.host_features_ops() == seq![
            IoOp::Write32 { addr: (t.base + 0x14) as u64, value: 0 },
            IoOp::Read32 { addr: (t.base + 0x10) as u64 },
        ],
        t.queue_max_ops(queue) == seq![
            IoOp::Write32 { addr: (t.base + 0x30) as u64, value: queue as u32 },
            IoOp::Read32 { addr: (t.base + 0x34) as u64 },
        ],
        t.notify_ops(queue) == seq![
            IoOp::Barrier,
            IoOp::Write32 { addr: (t.base + 0x50) as u64, value: queue as u32 },
        ],
        t.driver_ok_ops() == seq![
            IoOp::Write32 { addr: (t.base + 0x70) as u64, value: if t.modern { 15 } else { 7 } },
        ],
        t.config_read8_ops(0) == seq![IoOp::Read8 { addr: (t.base + 0x100) as u64 }],
        t.config_read32_ops(0) == seq![IoOp::Read32 { addr: (t.base + 0x100) as u64 }],
{
    assert(1u8 | 2u8 | 4u8 == 7u8 && 7u8 | 8u8 == 15u8) by (bit_vector);
}

/// Claiming a device: it is reset, and told that it was seen and has a driver;
/// an old one is told the size of pages.
pub proof fn law_mmio_claim(t: VirtioMmio)
    requires
        t.base + 0x100 <= u64::MAX,
    ensures
        ({
            let ops = claim_ops(t);
            &&& ops.len() == if t.modern {
                3int
            } else {
                4
            }
            &&& ops[0] == (IoOp::Write32 { addr: (t.base + 0x70) as u64, value: 0 })
            &&& ops[1] == (IoOp::Write32 { addr: (t.base + 0x70) as u64, value: 1 })
            &&& ops[2] == (IoOp::Write32 { addr: (t.base + 0x70) as u64, value: 3 })
            &&& !t.modern ==> ops[3] == (IoOp::Write32 { addr: (t.base + 0x28) as u64, value: 4096 })
        }),
{
    assert(1u8 | 2u8 == 3u8) by (bit_vector);
}

/// The features that are accepted: those of the low word; a modern device is
/// told in the high word that it is one, then that this is all, and is asked
/// whether it agrees.
pub proof fn law_mmio_features(t: VirtioMmio, features: u32)
    requires
        t.base + 0x100 <= u64::MAX,
    ensures
        ({
            let ops = t.set_guest_features_ops(features);
            &&& ops.len() == if t.modern {
                6int
            } else {
                2
            }
            &&& ops[0] == (IoOp::Write32 { addr: (t.base + 0x24) as u64, value: 0 })
            &&& ops[1] == (IoOp::Write32 { addr: (t.base + 0x20) as u64, value: features })
            &&& t.modern ==> {
                &&& ops[2] == (IoOp::Write32 { addr: (t.base + 0x24) as u64, value: 1 })
                &&& ops[3] == (IoOp::Write32 { addr: (t.base + 0x20) as u64, value: 1 })
                &&& ops[4] == (IoOp::Write32 { addr: (t.base + 0x70) as u64, value: 11 })
                &&& ops[5] == (IoOp::Read32 { addr: (t.base + 0x70) as u64 })
            }
        }),
{
    assert(1u8 | 2u8 | 8u8 == 11u8) by (bit_vector);
}

/// A queue is handed over with its number, its size, and where its parts lie:
/// a modern device gets the addresses of all three in two words each, and is
/// told that the queue is ready; an old one gets the page of the first.
pub proof fn law_mmio_queue(t: VirtioMmio, queue: u16, size: u16, addrs: (u64, u64, u64))
    requires
        t.base + 0x100 <= u64::MAX,
    ensures
        ({
            let ops = t.setup_queue_ops(queue, size, addrs);
            &&& ops[0] == (IoOp::Write32 { addr: (t.base + 0x30) as u64, value: queue as u32 })
            &&& ops[1] == (IoOp::Write32 { addr: (t.base + 0x38) as u64, value: size as u32 })
            &&& t.modern ==> {
                &&& ops.len() == 9
                &&& forall|k: int| 2 <= k < 9 ==> #[trigger] ops[k] is Write32
                &&& ops[2]->Write32_addr == t.base + 0x80 && ops[3]->Write32_addr == t.base + 0x84
                &&& ops[2]->Write32_value + 0x1_0000_0000 * ops[3]->Write32_value == addrs.0
                &&& ops[4]->Write32_addr == t.base + 0x90 && ops[5]->Write32_addr == t.base + 0x94
                &&& ops[4]->Write32_value + 0x1_0000_0000 * ops[5]->Write32_value == addrs.1
                &&& ops[6]->Write32_addr == t.base + 0xA0 && ops[7]->Write32_addr == t.base + 0xA4
                &&& ops[6]->Write32_value + 0x1_0000_0000 * ops[7]->Write32_value == addrs.2
                &&& ops[8] == (IoOp::Write32 { addr: (t.base + 0x44) as u64, value: 1 })
            }
            &&& !t.modern ==> {
                &&& ops.len() == 4
                &&& ops[2] == (IoOp::Write32 { addr: (t.base + 0x3C) as u64, value: 4096 })
                &&& ops[3] is Write32 && ops[3]->Write32_addr == t.base + 0x40
                &&& addrs.0 % 4096 == 0 && addrs.0 <= 0xFFF_FFFF_F000 ==> 4096 * ops[3]->Write32_value
                    == addrs.0
            }
        }),
        t.queue_limit_of(size as u32) == if size < 256 {
            size
        } else {
            256
        },
{
}

/// A slot holds a device if it shows the magic word and a device other than
/// none; these slots are found, in order, and no others.
pub proof fn law_slots_with_devices_are_found(regs: Seq<SlotRegs>, n: int, k: int)
    requires
        0 <= k < n <= regs.len(),
    ensures
        regs[k].magic == 0x7472_6976 && regs[k].device_id != 0 <==> found_slots(regs, n).contains(k),
        forall|j: int| 0 <= j < found_slots(regs, n).len() ==> 0 <= #[trigger] found_slots(regs, n)[j] < n,
        forall|i: int, j: int|
            0 <= i < j < found_slots(regs, n).len() ==> #[trigger] found_slots(regs, n)[i]
                < #[trigger] found_slots(regs, n)[j],
    decreases n,
{
    let before = found_slots(regs, n - 1);
    let all = found_slots(regs, n);
    if n > 1 {
        law_slots_with_devices_are_found(regs, n - 1, if k < n - 1 {
            k
        } else {
            0
        });
    }
    if occupied(regs[n - 1]) {
        assert(all == before.push(n - 1));
        assert(all[before.len() as int] == n - 1);
        if k < n - 1 {
            if before.contains(k) {
                let j = choose|j: int| 0 <= j < before.len() && before[j] == k;
                assert(all[j] == k);
            }
            if all.contains(k) {
                let j = choose|j: int| 0 <= j < all.len() && all[j] == k;
                assert(before[j] == k);
            }
        }
    } else if k == n - 1 && all.contains(k) {
        let j = choose|j: int| 0 <= j < all.len() && all[j] == k;
        assert(before[j] == k);
    }
}

} // verus!
