//! Generic interrupt controller, versions 2 and 3.
//!
//! Three interrupts are used: software interrupt 1 reschedules a CPU, a
//! per-CPU interrupt is the timer's tick, and the console's input is a shared
//! interrupt that goes to the boot CPU.
//!
//! Version 2 has a memory-mapped interface per CPU, and software interrupts
//! go to interface numbers, of which there are 8. Version 3 has a
//! redistributor per CPU and its interface in system registers; software
//! interrupts go to affinities.

use vstd::prelude::*;
use crate::io::{join_ops, one_op, two_ops, IoOp, SysReg};

verus! {

/// Software interrupt that reschedules a CPU.
pub const RESCHED_SGI: u32 = 1;

pub const GICD_CTLR: u64 = 0x0000;

pub const GICD_IGROUPR: u64 = 0x0080;

pub const GICD_ISENABLER: u64 = 0x0100;

pub const GICD_IPRIORITYR: u64 = 0x0400;

pub const GICD_ITARGETSR: u64 = 0x0800;

pub const GICD_ICFGR: u64 = 0x0C00;

pub const GICD_SGIR: u64 = 0x0F00;

pub const GICD_IROUTER: u64 = 0x6000;

/// A register write is pending.
pub const GICD_CTLR_RWP: u32 = 0x8000_0000;

pub const GICC_CTLR: u64 = 0x000;

pub const GICC_PMR: u64 = 0x004;

pub const GICC_BPR: u64 = 0x008;

pub const GICC_IAR: u64 = 0x00C;

pub const GICC_EOIR: u64 = 0x010;

pub const GICR_TYPER: u64 = 0x0008;

pub const GICR_WAKER: u64 = 0x0014;

pub const GICR_IGROUPR0: u64 = 0x1_0080;

pub const GICR_ISENABLER0: u64 = 0x1_0100;

pub const GICR_IPRIORITYR: u64 = 0x1_0400;

pub const WAKER_PROCESSOR_SLEEP: u32 = 0x2;

pub const WAKER_CHILDREN_ASLEEP: u32 = 0x4;

/// Which controller, and where.
#[derive(Debug, Clone, Copy, PartialEq, Eq, Structural)]
pub struct GicConfig {
    pub version: u8,
    pub gicd: u64,
    /// The CPU interface of version 2, or the redistributors of version 3.
    pub gicc_or_gicr: u64,
    pub gicr_size: u64,
    pub timer_irq: u32,
    pub uart_irq: u32,
}

impl GicConfig {
    pub open spec fn v3(self) -> bool {
        self.version == 3
    }

    /// All registers have addresses, and the timer's interrupt is one of
    /// those that each CPU has to itself.
    pub open spec fn wf(self) -> bool {
        &&& self.gicd + 8 * self.uart_irq + 0x1_0000 <= u64::MAX
        &&& self.gicc_or_gicr + self.gicr_size + 0x6_0000 <= u64::MAX
        &&& self.timer_irq < 32
    }

    fn is_v3(&self) -> (r: bool)
        ensures
            r == self.v3(),
    {
        self.version == 3
    }
}

/// Affinity fields 3, 2, 1 and 0 of the ID register, packed.
pub open spec fn affinity(mpidr: u64) -> int {
    (mpidr / 0x1_0000_0000 % 256) * 0x100_0000 + mpidr % 0x100_0000
}

/// The bits in the low word, and `1 << (n % 16)`, are small.
proof fn lemma_bits(m: u64, n: u64)
    by (bit_vector)
    ensures
        ((m >> 8) & 0xFF00_0000) | (m & 0x00FF_FFFF) == (m / 0x1_0000_0000 % 256) * 0x100_0000 + m
            % 0x100_0000,
        1u64 << (n % 16) <= 0x8000,
{
}

fn mpidr_affinity(mpidr: u64) -> (r: u64)
    ensures
        r == affinity(mpidr),
{
    proof {
        lemma_bits(mpidr, 0);
    }
    ((mpidr >> 8) & 0xFF00_0000) | (mpidr & 0x00FF_FFFF)
}

/// Number of the lowest bit that is set in `mask` among its first 8 bits,
/// from bit `k` on; 0 if none is.
pub open spec fn lowest_bit(mask: u32, k: u32) -> u32
    decreases 8 - k,
{
    if k >= 8 {
        0
    } else if (mask >> k) & 1 == 1 {
        k
    } else {
        lowest_bit(mask, (k + 1) as u32)
    }
}

/// Interface numbers are below 8.
pub proof fn lemma_lowest_bit(mask: u32, k: u32)
    ensures
        lowest_bit(mask, k) < 8,
    decreases 8 - k,
{
    if k < 8 {
        lemma_lowest_bit(mask, (k + 1) as u32);
    }
}

/// The calling CPU's interface number, by the mask that it reads from the
/// first target register.
fn v2_interface_id(mask: u32) -> (r: u32)
    ensures
        r == lowest_bit(mask, 0),
        r < 8,
{
    let mut k: u32 = 0;
    while k < 8
        invariant
            k <= 8,
            lowest_bit(mask, k) == lowest_bit(mask, 0),
        decreases 8 - k,
    {
        if (mask >> k) & 1 == 1 {
            return k;
        }
        k += 1;
    }
    0
}

/// The console's interrupt, in its register of 1 bit for each.
pub open spec fn irq_bit(irq: u32) -> u32 {
    1u32 << (irq % 32)
}

/// The route of the console's interrupt to the calling CPU.
pub open spec fn route(mpidr: u64) -> int {
    (mpidr / 0x1_0000_0000 % 256) * 0x1_0000_0000 + mpidr % 0x100_0000
}

/// A wait until the distributor has taken what was written.
pub open spec fn rwp_ops(c: GicConfig) -> Seq<IoOp> {
    if c.v3() {
        seq![IoOp::WaitClear32 { addr: (c.gicd + GICD_CTLR) as u64, mask: GICD_CTLR_RWP }]
    } else {
        Seq::empty()
    }
}

fn wait_rwp(c: &GicConfig) -> (r: Vec<IoOp>)
    requires
        c.wf(),
    ensures
        r@ == rwp_ops(*c),
{
    if c.is_v3() {
        one_op(IoOp::WaitClear32 { addr: c.gicd + GICD_CTLR, mask: GICD_CTLR_RWP })
    } else {
        Vec::new()
    }
}

/// How the console's interrupt gets to the calling CPU: version 3 puts it in
/// group 1 and names an affinity, version 2 names an interface.
pub open spec fn uart_target_ops(c: GicConfig, mpidr: u64, mask: u32) -> Seq<IoOp> {
    let u = c.uart_irq;
    if c.v3() {
        seq![
            IoOp::Modify32 {
                addr: (c.gicd + GICD_IGROUPR + 4 * (u / 32)) as u64,
                clear: 0,
                set: irq_bit(u),
            },
            IoOp::Write64 {
                addr: (c.gicd + GICD_IROUTER + 8 * u) as u64,
                value: route(mpidr) as u64,
            },
        ]
    } else {
        seq![
            IoOp::Write8 {
                addr: (c.gicd + GICD_ITARGETSR + u) as u64,
                value: 1u8 << lowest_bit(mask, 0),
            },
        ]
    }
}

/// The distributor's set-up: off, the console's interrupt level-triggered
/// with its priority and target, enabled, on again.
pub open spec fn distributor_ops(c: GicConfig, mpidr: u64, mask: u32) -> Seq<IoOp> {
    let u = c.uart_irq;
    let ctlr = (c.gicd + GICD_CTLR) as u64;
    seq![IoOp::Write32 { addr: ctlr, value: 0 }] + rwp_ops(c) + seq![
        IoOp::Modify32 {
            addr: (c.gicd + GICD_ICFGR + 4 * (u / 16)) as u64,
            clear: 2u32 << (2 * (u % 16)) as u32,
            set: 0,
        },
        IoOp::Write8 { addr: (c.gicd + GICD_IPRIORITYR + u) as u64, value: 0xA0 },
    ] + uart_target_ops(c, mpidr, mask) + seq![
        IoOp::Write32 {
            addr: (c.gicd + GICD_ISENABLER + 4 * (u / 32)) as u64,
            value: irq_bit(u),
        },
        IoOp::Write32 { addr: ctlr, value: if c.v3() { 0x13 } else { 1 } },
    ] + rwp_ops(c)
}

/// Sets up the distributor on the boot CPU, whose ID register holds `mpidr`
/// and which reads `mask` from the first target register of version 2; its
/// own interface is set up by `init_cpu`.
pub fn init(c: &GicConfig, mpidr: u64, mask: u32) -> (r: Vec<IoOp>)
    requires
        c.wf(),
    ensures
        r@ == distributor_ops(*c, mpidr, mask),
{
    let d: u64 = c.gicd;
    let u: u64 = c.uart_irq as u64;
    let off: Vec<IoOp> = join_ops(
        one_op(IoOp::Write32 { addr: d + GICD_CTLR, value: 0 }),
        wait_rwp(c),
    );
    let shift: u32 = 2 * (c.uart_irq % 16);
    let trigger: Vec<IoOp> = two_ops(
        IoOp::Modify32 { addr: d + GICD_ICFGR + 4 * (u / 16), clear: 2u32 << shift, set: 0 },
        IoOp::Write8 { addr: d + GICD_IPRIORITYR + u, value: 0xA0 },
    );
    let target: Vec<IoOp> = if c.is_v3() {
        let a: u64 = mpidr_affinity(mpidr);
        let to: u64 = (a / 0x100_0000) * 0x1_0000_0000 + a % 0x100_0000;
        assert(to == route(mpidr));
        two_ops(
            IoOp::Modify32 {
                addr: d + GICD_IGROUPR + 4 * (u / 32),
                clear: 0,
                set: 1u32 << (c.uart_irq % 32),
            },
            IoOp::Write64 { addr: d + GICD_IROUTER + 8 * u, value: to },
        )
    } else {
        one_op(
            IoOp::Write8 { addr: d + GICD_ITARGETSR + u, value: 1u8 << v2_interface_id(mask) },
        )
    };
    let on: Vec<IoOp> = two_ops(
        IoOp::Write32 { addr: d + GICD_ISENABLER + 4 * (u / 32), value: 1u32 << (c.uart_irq % 32) },
        IoOp::Write32 { addr: d + GICD_CTLR, value: if c.is_v3() { 0x13 } else { 1 } },
    );
    let ops: Vec<IoOp> = join_ops(join_ops(join_ops(join_ops(off, trigger), target), on), wait_rwp(c));
    assert(ops@ =~= distributor_ops(*c, mpidr, mask));
    ops
}

/// The reschedule interrupt and the timer's, 1 bit for each.
pub open spec fn own_bits(c: GicConfig) -> u32 {
    2u32 | (1u32 << c.timer_irq)
}

/// The set-up of the calling CPU: with version 3 its redistributor, at `rd`,
/// is woken and its two interrupts go to group 1, get their priority and are
/// enabled, and the system registers are switched on; with version 2 the
/// interrupts and the interface are set up.
pub open spec fn cpu_ops(c: GicConfig, rd: u64) -> Seq<IoOp> {
    let t = c.timer_irq;
    if c.v3() {
        seq![
            IoOp::Modify32 {
                addr: (rd + GICR_WAKER) as u64,
                clear: WAKER_PROCESSOR_SLEEP,
                set: 0,
            },
            IoOp::WaitClear32 { addr: (rd + GICR_WAKER) as u64, mask: WAKER_CHILDREN_ASLEEP },
            IoOp::Modify32 { addr: (rd + GICR_IGROUPR0) as u64, clear: 0, set: own_bits(c) },
            IoOp::Write8 { addr: (rd + GICR_IPRIORITYR + RESCHED_SGI) as u64, value: 0x80 },
            IoOp::Write8 { addr: (rd + GICR_IPRIORITYR + t) as u64, value: 0x80 },
            IoOp::Write32 { addr: (rd + GICR_ISENABLER0) as u64, value: own_bits(c) },
            IoOp::SetSys { reg: SysReg::IccSre, bits: 1 },
        ]
    } else {
        let d = c.gicd;
        let i = c.gicc_or_gicr;
        seq![
            IoOp::Write8 { addr: (d + GICD_IPRIORITYR + RESCHED_SGI) as u64, value: 0x80 },
            IoOp::Write8 { addr: (d + GICD_IPRIORITYR + t) as u64, value: 0x80 },
            IoOp::Write32 { addr: (d + GICD_ISENABLER) as u64, value: own_bits(c) },
            IoOp::Write32 { addr: (i + GICC_PMR) as u64, value: 0xF0 },
            IoOp::Write32 { addr: (i + GICC_BPR) as u64, value: 0 },
            IoOp::Write32 { addr: (i + GICC_CTLR) as u64, value: 1 },
        ]
    }
}

/// Sets up the interface of the calling CPU, whose redistributor is at `rd`
/// with version 3. With that version `init_interface` follows.
pub fn init_cpu(c: &GicConfig, rd: u64) -> (r: Vec<IoOp>)
    requires
        c.wf(),
        rd <= u64::MAX - 0x2_0000,
    ensures
        r@ == cpu_ops(*c, rd),
{
    let t: u64 = c.timer_irq as u64;
    let bits: u32 = 2u32 | (1u32 << c.timer_irq);
    let mut ops: Vec<IoOp> = Vec::new();
    if c.is_v3() {
        ops.push(
            IoOp::Modify32 { addr: rd + GICR_WAKER, clear: WAKER_PROCESSOR_SLEEP, set: 0 },
        );
        ops.push(IoOp::WaitClear32 { addr: rd + GICR_WAKER, mask: WAKER_CHILDREN_ASLEEP });
        ops.push(IoOp::Modify32 { addr: rd + GICR_IGROUPR0, clear: 0, set: bits });
        ops.push(IoOp::Write8 { addr: rd + GICR_IPRIORITYR + RESCHED_SGI as u64, value: 0x80 });
        ops.push(IoOp::Write8 { addr: rd + GICR_IPRIORITYR + t, value: 0x80 });
        ops.push(IoOp::Write32 { addr: rd + GICR_ISENABLER0, value: bits });
        ops.push(IoOp::SetSys { reg: SysReg::IccSre, bits: 1 });
    } else {
        let d: u64 = c.gicd;
        let i: u64 = c.gicc_or_gicr;
        ops.push(IoOp::Write8 { addr: d + GICD_IPRIORITYR + RESCHED_SGI as u64, value: 0x80 });
        ops.push(IoOp::Write8 { addr: d + GICD_IPRIORITYR + t, value: 0x80 });
        ops.push(IoOp::Write32 { addr: d + GICD_ISENABLER, value: bits });
        ops.push(IoOp::Write32 { addr: i + GICC_PMR, value: 0xF0 });
        ops.push(IoOp::Write32 { addr: i + GICC_BPR, value: 0 });
        ops.push(IoOp::Write32 { addr: i + GICC_CTLR, value: 1 });
    }
    ops
}

/// Sets up the version 3 interface of the calling CPU, which reads `sre` from
/// the register that was to switch it on; `None` where it cannot be had.
pub fn init_interface(sre: u64) -> (r: Option<Vec<IoOp>>)
    ensures
        match r {
            None => sre % 2 == 0,
            Some(ops) => sre % 2 == 1 && ops@ == seq![
                IoOp::WriteSys { reg: SysReg::IccPmr, value: 0xF0 },
                IoOp::WriteSys { reg: SysReg::IccBpr1, value: 0 },
                IoOp::WriteSys { reg: SysReg::IccIgrpen1, value: 1 },
            ],
        },
{
    if sre % 2 == 0 {
        return None;
    }
    let mut ops: Vec<IoOp> = Vec::new();
    ops.push(IoOp::WriteSys { reg: SysReg::IccPmr, value: 0xF0 });
    ops.push(IoOp::WriteSys { reg: SysReg::IccBpr1, value: 0 });
    ops.push(IoOp::WriteSys { reg: SysReg::IccIgrpen1, value: 1 });
    Some(ops)
}

/// How far the next redistributor is, by the type register of this one.
pub open spec fn frame_step(typer: u64) -> int {
    if typer / 2 % 2 == 1 {
        0x4_0000
    } else {
        0x2_0000
    }
}

/// The redistributor of the CPU with affinity `me` among those from `rd` on:
/// the first whose type register, in `typers` by address, names that
/// affinity, up to the one that says it is the last.
pub open spec fn redistributor(typers: spec_fn(int) -> u64, rd: int, end: int, me: u64) -> Option<int>
    decreases (if rd < end { end - rd } else { 0 }),
{
    if rd >= end {
        None
    } else {
        let typer = typers(rd);
        if typer / 0x1_0000_0000 == me {
            Some(rd)
        } else if typer / 16 % 2 == 1 {
            None
        } else {
            redistributor(typers, rd + frame_step(typer), end, me)
        }
    }
}

/// A search for the calling CPU's redistributor.
#[derive(Debug, Clone, Copy, PartialEq, Eq)]
pub struct RedistributorScan {
    pub me: u64,
    pub end: u64,
    /// The redistributor whose type register is read next.
    pub rd: u64,
    /// What was found, once the search has ended.
    pub found: Option<Option<u64>>,
}

impl RedistributorScan {
    pub open spec fn wf(self) -> bool {
        &&& self.end <= u64::MAX - 0x6_0000
        &&& self.found is None ==> self.rd < self.end
    }

    /// What is found where the type registers hold `typers`.
    pub open spec fn outcome(self, typers: spec_fn(int) -> u64) -> Option<int> {
        match self.found {
            Some(None) => None,
            Some(Some(rd)) => Some(rd as int),
            None => redistributor(typers, self.rd as int, self.end as int, self.me),
        }
    }

    /// The register that is read next; `None` once the search has ended.
    pub fn next_op(&self) -> (r: Option<IoOp>)
        requires
            self.wf(),
        ensures
            r == if self.found is None {
                Some(IoOp::Read64 { addr: (self.rd + GICR_TYPER) as u64 })
            } else {
                None
            },
    {
        if self.found.is_none() {
            Some(IoOp::Read64 { addr: self.rd + GICR_TYPER })
        } else {
            None
        }
    }

    /// Takes the type register that was read.
    pub fn feed(&mut self, typer: u64)
        requires
            old(self).wf(),
            old(self).found is None,
        ensures
            final(self).wf(),
            final(self).me == old(self).me,
            final(self).end == old(self).end,
            final(self).found is None ==> final(self).rd > old(self).rd,
            forall|typers: spec_fn(int) -> u64|
                typers(old(self).rd as int) == typer ==> #[trigger] final(self).outcome(typers)
                    == old(self).outcome(typers),
    {
        if typer / 0x1_0000_0000 == self.me {
            self.found = Some(Some(self.rd));
        } else if typer / 16 % 2 == 1 {
            self.found = Some(None);
        } else {
            self.rd = self.rd + if typer / 2 % 2 == 1 {
                0x4_0000
            } else {
                0x2_0000
            };
            if self.rd >= self.end {
                self.found = Some(None);
            }
        }
    }
}

/// Looks for the redistributor of the calling CPU, whose ID register holds
/// `mpidr`.
pub fn find_redistributor(c: &GicConfig, mpidr: u64) -> (r: RedistributorScan)
    requires
        c.wf(),
    ensures
        r.wf(),
        forall|typers: spec_fn(int) -> u64| #[trigger]
            r.outcome(typers) == redistributor(
                typers,
                c.gicc_or_gicr as int,
                c.gicc_or_gicr + c.gicr_size,
                affinity(mpidr) as u64,
            ),
{
    RedistributorScan {
        me: mpidr_affinity(mpidr),
        end: c.gicc_or_gicr + c.gicr_size,
        rd: c.gicc_or_gicr,
        found: if c.gicr_size > 0 {
            None
        } else {
            Some(None)
        },
    }
}

/// Where a reschedule interrupt for the calling CPU goes.
pub open spec fn target_id(c: GicConfig, mpidr: u64, mask: u32) -> u32 {
    if c.v3() {
        (mpidr % 0x100_0000) as u32
    } else {
        lowest_bit(mask, 0)
    }
}

/// The calling CPU's target: its interface number with version 2, its
/// affinity fields 2, 1 and 0 with version 3.
pub fn cpu_target_id(c: &GicConfig, mpidr: u64, mask: u32) -> (r: u32)
    ensures
        r == target_id(*c, mpidr, mask),
{
    if c.is_v3() {
        (mpidr_affinity(mpidr) % 0x100_0000) as u32
    } else {
        v2_interface_id(mask)
    }
}

/// The word that sends the reschedule interrupt to an affinity: field 2, the
/// sixteen field 0 values that the list covers, the interrupt, field 1, and
/// the list.
pub open spec fn sgi_word(target: u32) -> int {
    let aff0 = target % 256;
    let aff1 = target / 256 % 256;
    let aff2 = target / 0x1_0000 % 256;
    aff2 * 0x1_0000_0000 + (aff0 / 16) * 0x1000_0000_0000 + RESCHED_SGI * 0x100_0000 + aff1 * 0x1_0000 + (
    1u64 << (aff0 as u64 % 16))
}

/// Fields of the word that sends an interrupt.
proof fn lemma_sgi_fields(aff2: u64, rs: u64, aff1: u64, list: u64)
    by (bit_vector)
    requires
        aff2 < 256,
        rs < 16,
        aff1 < 256,
        list <= 0x8000,
    ensures
        ({
            let w = aff2 * 0x1_0000_0000 + rs * 0x1000_0000_0000 + 0x100_0000 + aff1 * 0x1_0000 + list;
            &&& w / 0x1_0000_0000 % 256 == aff2
            &&& w / 0x1_0000 % 256 == aff1
            &&& w / 0x1000_0000_0000 == rs
            &&& w % 0x1_0000 == list
            &&& w / 0x100_0000 % 16 == 1
        }),
{
}

/// Affinity fields of a target.
proof fn lemma_target_fields(m: u64)
    by (bit_vector)
    ensures
        (m % 0x100_0000) % 256 == m % 256,
        (m % 0x100_0000) / 256 % 256 == m / 256 % 256,
        (m % 0x100_0000) / 0x1_0000 % 256 == m / 0x1_0000 % 256,
{
}

/// The word that version 3 sends names the affinity of the CPU whose target
/// it is, and no other.
pub proof fn law_reschedule_names_its_cpu(c: GicConfig, mpidr: u64, mask: u32)
    requires
        c.v3(),
    ensures
        ({
            let w = sgi_word(target_id(c, mpidr, mask));
            let aff0 = mpidr % 256;
            &&& 0 <= w <= u64::MAX
            &&& w / 0x1_0000_0000 % 256 == mpidr / 0x1_0000 % 256
            &&& w / 0x1_0000 % 256 == mpidr / 256 % 256
            &&& w / 0x1000_0000_0000 == aff0 / 16
            &&& w % 0x1_0000 == 1u64 << (aff0 % 16)
            &&& w / 0x100_0000 % 16 == RESCHED_SGI
        }),
{
    let aff0 = mpidr % 256;
    lemma_bits(0, aff0);
    lemma_target_fields(mpidr);
    lemma_sgi_fields(mpidr / 0x1_0000 % 256, aff0 / 16, mpidr / 256 % 256, 1u64 << (aff0 % 16));
    let target = target_id(c, mpidr, mask);
    assert(target == mpidr % 0x100_0000);
    assert(target % 256 == aff0);
    assert(target / 256 % 256 == mpidr / 256 % 256);
    assert(target / 0x1_0000 % 256 == mpidr / 0x1_0000 % 256);
}

/// Sends the reschedule interrupt to the CPU with this target, after what was
/// written before.
pub fn send_resched(c: &GicConfig, target: u32) -> (r: Vec<IoOp>)
    requires
        c.wf(),
        !c.v3() ==> target < 16,
    ensures
        r@ == if c.v3() {
            seq![
                IoOp::Barrier,
                IoOp::WriteSys { reg: SysReg::IccSgi1r, value: sgi_word(target) as u64 },
            ]
        } else {
            seq![
                IoOp::Barrier,
                IoOp::Write32 {
                    addr: (c.gicd + GICD_SGIR) as u64,
                    value: (1u32 << (16 + target) as u32) | RESCHED_SGI,
                },
            ]
        },
{
    if c.is_v3() {
        let aff0: u64 = (target % 256) as u64;
        let aff1: u64 = (target / 256 % 256) as u64;
        let aff2: u64 = (target / 0x1_0000 % 256) as u64;
        proof {
            lemma_bits(0, aff0);
        }
        let v: u64 = aff2 * 0x1_0000_0000 + (aff0 / 16) * 0x1000_0000_0000 + RESCHED_SGI as u64
            * 0x100_0000 + aff1 * 0x1_0000 + (1u64 << (aff0 % 16));
        two_ops(IoOp::Barrier, IoOp::WriteSys { reg: SysReg::IccSgi1r, value: v })
    } else {
        let sgi: u32 = (1u32 << (16 + target)) | RESCHED_SGI;
        two_ops(IoOp::Barrier, IoOp::Write32 { addr: c.gicd + GICD_SGIR, value: sgi })
    }
}

/// The read that acknowledges an interrupt.
pub fn acknowledge(c: &GicConfig) -> (r: IoOp)
    requires
        c.wf(),
    ensures
        r == if c.v3() {
            IoOp::ReadSys { reg: SysReg::IccIar1 }
        } else {
            IoOp::Read32 { addr: (c.gicc_or_gicr + GICC_IAR) as u64 }
        },
{
    if c.is_v3() {
        IoOp::ReadSys { reg: SysReg::IccIar1 }
    } else {
        IoOp::Read32 { addr: c.gicc_or_gicr + GICC_IAR }
    }
}

/// The write that ends the interrupt that was acknowledged as `iar`.
pub open spec fn eoi_op(c: GicConfig, iar: u32) -> IoOp {
    if c.v3() {
        IoOp::WriteSys { reg: SysReg::IccEoir1, value: iar as u64 }
    } else {
        IoOp::Write32 { addr: (c.gicc_or_gicr + GICC_EOIR) as u64, value: iar }
    }
}

fn end_of_interrupt(c: &GicConfig, iar: u32) -> (r: IoOp)
    requires
        c.wf(),
    ensures
        r == eoi_op(*c, iar),
{
    if c.is_v3() {
        IoOp::WriteSys { reg: SysReg::IccEoir1, value: iar as u64 }
    } else {
        IoOp::Write32 { addr: c.gicc_or_gicr + GICC_EOIR, value: iar }
    }
}

/// What is done for an interrupt.
#[derive(Debug, Clone, Copy, PartialEq, Eq, Structural)]
pub enum IrqAction {
    /// Nothing: there was none.
    Spurious,
    /// The timer is armed again, the interrupt ended, and the scheduler
    /// switches on a tick.
    Tick { end: IoOp },
    /// The interrupt is ended and the scheduler switches.
    Resched { end: IoOp },
    /// The console's input is taken and the interrupt ended.
    Console { end: IoOp },
    /// The interrupt is ended.
    Ignored { end: IoOp },
}

/// What is done for the interrupt that was acknowledged as `iar`.
pub open spec fn irq_action(c: GicConfig, iar: u32) -> IrqAction {
    let id = iar % 0x100_0000;
    let end = eoi_op(c, iar);
    if 1020 <= id < 1024 {
        IrqAction::Spurious
    } else if id == c.timer_irq {
        IrqAction::Tick { end }
    } else if id == RESCHED_SGI {
        IrqAction::Resched { end }
    } else if id == c.uart_irq {
        IrqAction::Console { end }
    } else {
        IrqAction::Ignored { end }
    }
}

/// What is done for the interrupt that was acknowledged as `iar`.
pub fn handle_irq(c: &GicConfig, iar: u32) -> (r: IrqAction)
    requires
        c.wf(),
    ensures
        r == irq_action(*c, iar),
{
    let id: u32 = iar % 0x100_0000;
    let end = end_of_interrupt(c, iar);
    if 1020 <= id && id < 1024 {
        IrqAction::Spurious
    } else if id == c.timer_irq {
        IrqAction::Tick { end }
    } else if id == RESCHED_SGI {
        IrqAction::Resched { end }
    } else if id == c.uart_irq {
        IrqAction::Console { end }
    } else {
        IrqAction::Ignored { end }
    }
}

/// A processor's affinity is four bytes of its identification register: the three low ones in their
/// places, and the fifth above them. A route names the same four, with the last one left in its place.
pub proof fn law_affinity(m: u64)
    ensures
        affinity(m) == m % 256 + 256 * (m / 256 % 256) + 0x1_0000 * (m / 0x1_0000 % 256) + 0x100_0000 * (
        m / 0x1_0000_0000 % 256),
        route(m) == m % 256 + 256 * (m / 256 % 256) + 0x1_0000 * (m / 0x1_0000 % 256)
            + 0x1_0000_0000 * (m / 0x1_0000_0000 % 256),
{
}

/// A mask of processors stands for the lowest of the eight that is in it, and for the first where
/// none is.
pub proof fn law_lowest_of_the_mask(mask: u32, k: u32, j: u32)
    requires
        k <= 8,
    ensures
        ({
            let r = lowest_bit(mask, k);
            &&& r < 8
            &&& (exists|i: u32| k <= i < 8 && #[trigger] (mask >> i) & 1 == 1) ==> k <= r && (mask >> r) & 1
                == 1
            &&& k <= j < r ==> (mask >> j) & 1 != 1
            &&& !(exists|i: u32| k <= i < 8 && #[trigger] (mask >> i) & 1 == 1) ==> r == 0
        }),
    decreases 8 - k,
{
    if k < 8 && (mask >> k) & 1 != 1 {
        law_lowest_of_the_mask(mask, (k + 1) as u32, j);
    }
}

proof fn lemma_one_bit(a: u32, b: u32, t: u32)
    by (bit_vector)
    requires
        a < 32,
        b < 32,
        t < 32,
    ensures
        ((1u32 << a) >> b) & 1 == (if a == b { 1u32 } else { 0u32 }),
        ((2u32 | (1u32 << t)) >> b) & 1 == (if b == 1 || b == t { 1u32 } else { 0u32 }),
{
}

/// The bit of an interrupt is the one at its place among the 32 of its word, and no other.
pub proof fn law_interrupt_bit(irq: u32, i: u32)
    requires
        i < 32,
    ensures
        (irq_bit(irq) >> i) & 1 == 1 <==> i == irq % 32,
{
    lemma_one_bit(irq % 32, i, 0);
}

/// A processor's own interrupts are number 1, by which it is told to switch, and the timer's.
pub proof fn law_own_interrupts(c: GicConfig, i: u32)
    requires
        i < 32,
        c.timer_irq < 32,
    ensures
        (own_bits(c) >> i) & 1 == 1 <==> i == 1 || i == c.timer_irq,
{
    lemma_one_bit(0, i, c.timer_irq);
}

/// Version 3 is told apart by its number alone.
pub proof fn law_controller_version(c: GicConfig)
    ensures
        c.v3() <==> c.version == 3,
{
}

/// The distributor is switched off before anything is set, and on at the end: for group 1 with
/// affinity routing in version 3, which also waits for both writes to have taken, and plainly in
/// version 2. In between the console's interrupt is made level-triggered, given priority 0xA0, sent
/// to this processor and let through.
pub proof fn law_distributor_is_set_up(c: GicConfig, mpidr: u64, mask: u32)
    requires
        c.wf(),
    ensures
        ({
            let ops = distributor_ops(c, mpidr, mask);
            let u = c.uart_irq;
            let off = IoOp::Write32 { addr: c.gicd, value: 0 };
            let wait = IoOp::WaitClear32 { addr: c.gicd, mask: 0x8000_0000 };
            let level = IoOp::Modify32 {
                addr: (c.gicd + 0xC00 + 4 * (u / 16)) as u64,
                clear: 2u32 << (2 * (u % 16)) as u32,
                set: 0,
            };
            let priority = IoOp::Write8 { addr: (c.gicd + 0x400 + u) as u64, value: 0xA0 };
            let enable = IoOp::Write32 {
                addr: (c.gicd + 0x100 + 4 * (u / 32)) as u64,
                value: irq_bit(u),
            };
            if c.version == 3 {
                ops == seq![
                    off,
                    wait,
                    level,
                    priority,
                    IoOp::Modify32 {
                        addr: (c.gicd + 0x80 + 4 * (u / 32)) as u64,
                        clear: 0,
                        set: irq_bit(u),
                    },
                    IoOp::Write64 { addr: (c.gicd + 0x6000 + 8 * u) as u64, value: route(mpidr) as u64 },
                    enable,
                    IoOp::Write32 { addr: c.gicd, value: 0x13 },
                    wait,
                ]
            } else {
                ops == seq![
                    off,
                    level,
                    priority,
                    IoOp::Write8 {
                        addr: (c.gicd + 0x800 + u) as u64,
                        value: 1u8 << lowest_bit(mask, 0),
                    },
                    enable,
                    IoOp::Write32 { addr: c.gicd, value: 1 },
                ]
            }
        }),
{
}

/// A processor's own part is set up at fixed registers: in version 3 its redistributor is woken and
/// waited for, its two interrupts go to group 1 with priority 0x80 and are let through, and the system
/// registers are chosen; in version 2 the same two are set in the distributor's first words and the
/// processor's interface is opened.
pub proof fn law_processor_is_set_up(c: GicConfig, rd: u64)
    requires
        c.wf(),
    ensures
        ({
            let ops = cpu_ops(c, rd);
            let t = c.timer_irq;
            let d = c.gicd;
            let i = c.gicc_or_gicr;
            if c.version == 3 {
                ops == seq![
                    IoOp::Modify32 { addr: (rd + 0x14) as u64, clear: 2, set: 0 },
                    IoOp::WaitClear32 { addr: (rd + 0x14) as u64, mask: 4 },
                    IoOp::Modify32 { addr: (rd + 0x1_0080) as u64, clear: 0, set: own_bits(c) },
                    IoOp::Write8 { addr: (rd + 0x1_0400 + 1) as u64, value: 0x80 },
                    IoOp::Write8 { addr: (rd + 0x1_0400 + t) as u64, value: 0x80 },
                    IoOp::Write32 { addr: (rd + 0x1_0100) as u64, value: own_bits(c) },
                    IoOp::SetSys { reg: SysReg::IccSre, bits: 1 },
                ]
            } else {
                ops == seq![
                    IoOp::Write8 { addr: (d + 0x400 + 1) as u64, value: 0x80 },
                    IoOp::Write8 { addr: (d + 0x400 + t) as u64, value: 0x80 },
                    IoOp::Write32 { addr: (d + 0x100) as u64, value: own_bits(c) },
                    IoOp::Write32 { addr: (i + 4) as u64, value: 0xF0 },
                    IoOp::Write32 { addr: (i + 8) as u64, value: 0 },
                    IoOp::Write32 { addr: i, value: 1 },
                ]
            }
        }),
{
}

/// A redistributor takes two frames of 64 KiB, or four where bit 1 of its type register says so.
pub proof fn law_redistributor_size(typer: u64)
    ensures
        typer % 4 < 2 ==> frame_step(typer) == 2 * 0x1_0000,
        typer % 4 >= 2 ==> frame_step(typer) == 4 * 0x1_0000,
{
}

/// The redistributor that is found is one of the row and has the asked affinity in the high half of
/// its type register. None stands before it that has: the row is walked from its start, frame by
/// frame, no further than to the one whose bit 4 says that it is the last.
pub proof fn law_redistributor_is_the_first(typers: spec_fn(int) -> u64, rd: int, end: int, me: u64)
    ensures
        ({
            let r = redistributor(typers, rd, end, me);
            &&& r is Some ==> rd <= r->0 < end && typers(r->0) / 0x1_0000_0000 == me
            &&& rd >= end ==> r is None
            &&& rd < end && typers(rd) / 0x1_0000_0000 == me ==> r == Some(rd)
            &&& rd < end && typers(rd) / 0x1_0000_0000 != me && typers(rd) / 16 % 2 == 1 ==> r is None
            &&& rd < end && typers(rd) / 0x1_0000_0000 != me && typers(rd) / 16 % 2 == 0 ==> r
                == redistributor(
                typers,
                rd + (if typers(rd) / 2 % 2 == 1 { 0x4_0000int } else { 0x2_0000 }),
                end,
                me,
            )
        }),
    decreases if rd < end { end - rd } else { 0 },
{
    if rd < end && typers(rd) / 0x1_0000_0000 != me && typers(rd) / 16 % 2 == 0 {
        law_redistributor_is_the_first(typers, rd + frame_step(typers(rd)), end, me);
    }
}

/// A processor is named to the controller by the three low bytes of its register in version 3, and by
/// its place in the mask before that.
pub proof fn law_target_number(c: GicConfig, mpidr: u64, mask: u32)
    ensures
        c.version == 3 ==> target_id(c, mpidr, mask) == mpidr % 0x100_0000,
        c.version != 3 ==> target_id(c, mpidr, mask) == lowest_bit(mask, 0),
{
}

/// An interrupt is known by the low 24 bits of what was acknowledged: 1020 to 1023 stand for none,
/// then come the timer's, number 1 to switch, and the console's. Every one but those four is ended,
/// with the very word that was acknowledged.
pub proof fn law_interrupts_are_told_apart(c: GicConfig, iar: u32)
    requires
        c.wf(),
    ensures
        ({
            let id = iar % 0x100_0000;
            let a = irq_action(c, iar);
            let end = if c.version == 3 {
                IoOp::WriteSys { reg: SysReg::IccEoir1, value: iar as u64 }
            } else {
                IoOp::Write32 { addr: (c.gicc_or_gicr + 0x10) as u64, value: iar }
            };
            let none = 1020 <= id <= 1023;
            let tick = !none && id == c.timer_irq;
            let told = !none && !tick && id == 1;
            let console = !none && !tick && !told && id == c.uart_irq;
            &&& none <==> a is Spurious
            &&& tick <==> a == (IrqAction::Tick { end })
            &&& told <==> a == (IrqAction::Resched { end })
            &&& console <==> a == (IrqAction::Console { end })
            &&& !none && !tick && !told && !console <==> a == (IrqAction::Ignored { end })
        }),
{
}

/// The registers that single calls use.
pub proof fn law_controller_registers()
    ensures
        RESCHED_SGI == 1,
        GICD_SGIR == 0xF00,
        GICC_IAR == 0x00C,
        GICC_EOIR == 0x010,
        GICR_TYPER == 0x008,
{
}

} // verus!
