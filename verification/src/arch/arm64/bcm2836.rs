//! Interrupt controllers of the Raspberry Pi 2 and 3, which have no GIC.
//!
//! The local controller routes each core's timers and mailboxes: the virtual
//! timer is the tick, and mailbox 0 reschedules a core. The peripherals'
//! interrupts, the console's among them, come from a second controller and
//! reach core 0 as one source.

use vstd::prelude::*;
use crate::io::{join_ops, one_op, two_ops, IoOp};

verus! {

pub const TIMER_CTRL: u64 = 0x40;

pub const MBOX_CTRL: u64 = 0x50;

pub const IRQ_SOURCE: u64 = 0x60;

pub const MBOX0_SET: u64 = 0x80;

pub const MBOX0_CLR: u64 = 0xC0;

/// The virtual timer, as control bit and as source.
pub const TIMER_CNTV: u32 = 0x8;

pub const SRC_CNTV: u32 = 0x8;

pub const SRC_MBOX0: u32 = 0x10;

pub const SRC_GPU: u32 = 0x100;

pub const PENDING1: u64 = 0x04;

pub const ENABLE1: u64 = 0x10;

/// The controllers' addresses and the console's interrupt: 32 for each bank
/// and its bit; banks 1 and 2 are those of the peripherals.
#[derive(Debug, Clone, Copy, PartialEq, Eq, Structural)]
pub struct Bcm2836 {
    pub local: u64,
    pub armctrl: u64,
    pub uart_irq: u32,
}

impl Bcm2836 {
    /// All registers have addresses.
    pub open spec fn wf(self) -> bool {
        &&& self.local <= u64::MAX - 0x10_0000_1000
        &&& self.armctrl <= u64::MAX - 0x100
    }

    /// The console's interrupt is one of the peripherals' banks.
    pub open spec fn routed(self) -> bool {
        32 <= self.uart_irq < 96
    }

    fn is_routed(&self) -> (r: bool)
        ensures
            r == self.routed(),
    {
        32 <= self.uart_irq && self.uart_irq < 96
    }
}

/// Number of the calling core, by its ID register.
pub open spec fn core_of(mpidr: u64) -> u64 {
    mpidr % 256
}

/// The set-up of a core: its virtual timer, its mailbox emptied, its mailbox.
pub open spec fn cpu_ops(b: Bcm2836, core: u64) -> Seq<IoOp> {
    seq![
        IoOp::Write32 { addr: (b.local + TIMER_CTRL + 4 * core) as u64, value: TIMER_CNTV },
        IoOp::Write32 { addr: (b.local + MBOX0_CLR + 16 * core) as u64, value: 0xFFFF_FFFF },
        IoOp::Write32 { addr: (b.local + MBOX_CTRL + 4 * core) as u64, value: 1 },
    ]
}

/// Sets up the calling core, whose ID register holds `mpidr`.
pub fn init_cpu(b: &Bcm2836, mpidr: u64) -> (r: Vec<IoOp>)
    requires
        b.wf(),
    ensures
        r@ == cpu_ops(*b, core_of(mpidr)),
{
    let core: u64 = mpidr % 256;
    let mut ops: Vec<IoOp> = Vec::new();
    ops.push(IoOp::Write32 { addr: b.local + TIMER_CTRL + 4 * core, value: TIMER_CNTV });
    ops.push(IoOp::Write32 { addr: b.local + MBOX0_CLR + 16 * core, value: 0xFFFF_FFFF });
    ops.push(IoOp::Write32 { addr: b.local + MBOX_CTRL + 4 * core, value: 1 });
    ops
}

/// Enables the console's interrupt, if it is one of the peripherals' banks,
/// and sets up the boot core.
pub fn init(b: &Bcm2836, mpidr: u64) -> (r: Vec<IoOp>)
    requires
        b.wf(),
    ensures
        r@ == (if b.routed() {
            seq![
                IoOp::Write32 {
                    addr: (b.armctrl + ENABLE1 + 4 * (b.uart_irq / 32 - 1)) as u64,
                    value: 1u32 << (b.uart_irq % 32),
                },
            ]
        } else {
            Seq::empty()
        }) + cpu_ops(*b, core_of(mpidr)),
{
    let first: Vec<IoOp> = if b.is_routed() {
        let bank: u64 = (b.uart_irq / 32 - 1) as u64;
        one_op(
            IoOp::Write32 {
                addr: b.armctrl + ENABLE1 + 4 * bank,
                value: 1u32 << (b.uart_irq % 32),
            },
        )
    } else {
        Vec::new()
    };
    join_ops(first, init_cpu(b, mpidr))
}

/// The calling core's target: its number.
pub fn cpu_target_id(mpidr: u64) -> (r: u32)
    ensures
        r == core_of(mpidr),
{
    (mpidr % 256) as u32
}

/// Sends a reschedule interrupt to a core, after what was written before.
pub fn send_resched(b: &Bcm2836, target: u32) -> (r: Vec<IoOp>)
    requires
        b.wf(),
    ensures
        r@ == seq![
            IoOp::Barrier,
            IoOp::Write32 { addr: (b.local + MBOX0_SET + 16 * target) as u64, value: 1 },
        ],
{
    two_ops(
        IoOp::Barrier,
        IoOp::Write32 { addr: b.local + MBOX0_SET + 16 * target as u64, value: 1 },
    )
}

/// The read that tells the sources of an interrupt of the calling core.
pub fn read_source(b: &Bcm2836, mpidr: u64) -> (r: IoOp)
    requires
        b.wf(),
    ensures
        r == (IoOp::Read32 { addr: (b.local + IRQ_SOURCE + 4 * core_of(mpidr)) as u64 }),
{
    IoOp::Read32 { addr: b.local + IRQ_SOURCE + 4 * (mpidr % 256) }
}

/// The console's interrupt may be among the sources `src`.
pub open spec fn asks_pending(b: Bcm2836, src: u32) -> bool {
    src & SRC_GPU != 0 && b.routed()
}

/// The read that tells whether the console's interrupt is pending, where the
/// sources `src` leave that open.
pub fn read_pending(b: &Bcm2836, src: u32) -> (r: Option<IoOp>)
    requires
        b.wf(),
    ensures
        r == if asks_pending(*b, src) {
            Some(
                IoOp::Read32 { addr: (b.armctrl + PENDING1 + 4 * (b.uart_irq / 32 - 1)) as u64 },
            )
        } else {
            None
        },
{
    if src & SRC_GPU != 0 && b.is_routed() {
        let bank: u64 = (b.uart_irq / 32 - 1) as u64;
        Some(IoOp::Read32 { addr: b.armctrl + PENDING1 + 4 * bank })
    } else {
        None
    }
}

/// What is done for an interrupt, in this order.
#[derive(Debug, Clone, Copy, PartialEq, Eq, Structural)]
pub struct IrqPlan {
    /// The console's input is taken.
    pub console: bool,
    /// The mailbox is emptied.
    pub mailbox: Option<IoOp>,
    /// The timer is armed again.
    pub rearm: bool,
    /// The scheduler switches, on a tick or not.
    pub switch: Option<bool>,
}

/// What is done for an interrupt with the sources `src`, where `pending` is
/// what `read_pending` read.
pub fn handle_irq(b: &Bcm2836, mpidr: u64, src: u32, pending: u32) -> (r: IrqPlan)
    requires
        b.wf(),
    ensures
        r.console == (asks_pending(*b, src) && pending & (1u32 << (b.uart_irq % 32)) != 0),
        r.mailbox == if src & SRC_MBOX0 != 0 {
            Some(
                IoOp::Write32 {
                    addr: (b.local + MBOX0_CLR + 16 * core_of(mpidr)) as u64,
                    value: 0xFFFF_FFFF,
                },
            )
        } else {
            None
        },
        r.rearm == (src & SRC_CNTV != 0),
        r.switch == if src & SRC_CNTV != 0 {
            Some(true)
        } else if src & SRC_MBOX0 != 0 {
            Some(false)
        } else {
            None
        },
{
    let console = src & SRC_GPU != 0 && b.is_routed() && pending & (1u32 << (b.uart_irq % 32)) != 0;
    let mut switch: Option<bool> = None;
    let mut mailbox: Option<IoOp> = None;
    if src & SRC_MBOX0 != 0 {
        mailbox = Some(
            IoOp::Write32 { addr: b.local + MBOX0_CLR + 16 * (mpidr % 256), value: 0xFFFF_FFFF },
        );
        switch = Some(false);
    }
    let rearm = src & SRC_CNTV != 0;
    if rearm {
        switch = Some(true);
    }
    IrqPlan { console, mailbox, rearm, switch }
}

/// The registers and bits of the controller.
pub proof fn law_controller_registers()
    ensures
        TIMER_CTRL == 0x40,
        MBOX_CTRL == 0x50,
        IRQ_SOURCE == 0x60,
        MBOX0_SET == 0x80,
        MBOX0_CLR == 0xC0,
        PENDING1 == 0x04,
        ENABLE1 == 0x10,
        TIMER_CNTV == 0x8,
        SRC_CNTV == 0x8,
        SRC_MBOX0 == 0x10,
        SRC_GPU == 0x100,
{
}

/// A core is the low byte of its identification register.
pub proof fn law_core_number(mpidr: u64)
    ensures
        core_of(mpidr) < 256,
        (mpidr - core_of(mpidr)) % 256 == 0,
{
}

/// A core's timer is let through, its mailbox emptied and then let through, each at the core's own
/// register: the controls lie four bytes apart from core to core, the mailboxes sixteen.
pub proof fn law_core_is_set_up(b: Bcm2836, core: u64)
    requires
        b.wf(),
        core < 256,
    ensures
        cpu_ops(b, core) == seq![
            IoOp::Write32 { addr: (b.local + 0x40 + 4 * core) as u64, value: 8 },
            IoOp::Write32 { addr: (b.local + 0xC0 + 16 * core) as u64, value: 0xFFFF_FFFF },
            IoOp::Write32 { addr: (b.local + 0x50 + 4 * core) as u64, value: 1 },
        ],
{
}

/// The console's line is asked for exactly if bit 8 says that a peripheral interrupts and the line is
/// one of the 64 that are routed, from 32 on.
pub proof fn law_pending_is_asked_for(b: Bcm2836, src: u32)
    ensures
        asks_pending(b, src) <==> src & 0x100 != 0 && 32 <= b.uart_irq <= 95,
{
}

} // verus!
