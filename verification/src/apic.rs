//! Local APIC and I/O APIC.
//!
//! The Local APIC's timer, calibrated against the interval timer, drives the
//! scheduler tick; the I/O APIC routes the keyboard interrupt; the interrupt
//! command register sends IPIs and boots the application processors.

use vstd::prelude::*;
use crate::io::{one_op, IoOp};

verus! {

/// Vector of the local timer, the same as the legacy timer's.
pub const TIMER_VECTOR: u8 = 32;

/// Vector of the keyboard.
pub const KEYBOARD_VECTOR: u8 = 33;

/// Reschedule IPI: kicks a CPU into the scheduler.
pub const RESCHED_VECTOR: u8 = 0x30;

pub const ERROR_VECTOR: u8 = 0xFE;

pub const SPURIOUS_VECTOR: u8 = 0xFF;

pub const LAPIC_ID: u32 = 0x020;

pub const LAPIC_VERSION: u32 = 0x030;

pub const LAPIC_TPR: u32 = 0x080;

pub const LAPIC_EOI: u32 = 0x0B0;

pub const LAPIC_SVR: u32 = 0x0F0;

pub const LAPIC_ESR: u32 = 0x280;

pub const LAPIC_ICR_LOW: u32 = 0x300;

pub const LAPIC_ICR_HIGH: u32 = 0x310;

pub const LAPIC_LVT_TIMER: u32 = 0x320;

pub const LAPIC_LVT_LINT0: u32 = 0x350;

pub const LAPIC_LVT_LINT1: u32 = 0x360;

pub const LAPIC_LVT_ERROR: u32 = 0x370;

pub const LAPIC_TIMER_INIT_COUNT: u32 = 0x380;

pub const LAPIC_TIMER_CUR_COUNT: u32 = 0x390;

pub const LAPIC_TIMER_DIVIDE: u32 = 0x3E0;

pub const LVT_MASKED: u32 = 0x1_0000;

pub const TIMER_PERIODIC: u32 = 0x2_0000;

pub const TIMER_DIVIDE_BY_16: u32 = 0b0011;

/// The delivery status in the interrupt command register.
pub const ICR_PENDING: u32 = 0x1000;

/// Frequency of the interval timer.
pub const PIT_HZ: u64 = 1_193_182;

/// State of the Local APICs, which share their addresses.
#[derive(Debug, Clone, Copy, PartialEq, Eq, Structural)]
pub struct LocalApic {
    /// Address of the registers.
    pub virt: u64,
    /// Whether the APIC drives interrupts.
    pub enabled: bool,
    /// Timer ticks per 10 ms (divide by 16), 0 before calibration.
    pub ticks_per_10ms: u32,
}

/// A write to a register.
pub open spec fn reg_write_op(a: LocalApic, offset: u32, value: u32) -> IoOp {
    IoOp::Write32 { addr: (a.virt + offset) as u64, value }
}

/// A read of a register.
pub open spec fn reg_read_op(a: LocalApic, offset: u32) -> IoOp {
    IoOp::Read32 { addr: (a.virt + offset) as u64 }
}

/// Where a destination goes in its register.
pub open spec fn destination(apic_id: u32) -> u32 {
    (apic_id % 256 * 0x100_0000) as u32
}

/// The accesses that send an interrupt command to a CPU.
pub open spec fn icr_ops(a: LocalApic, apic_id: u32, command: u32) -> Seq<IoOp> {
    seq![
        reg_write_op(a, LAPIC_ICR_HIGH, destination(apic_id)),
        reg_write_op(a, LAPIC_ICR_LOW, command),
        IoOp::WaitClear32 { addr: (a.virt + LAPIC_ICR_LOW) as u64, mask: ICR_PENDING },
    ]
}

/// Where the Local APIC's registers lie, by its base register or, where that
/// is zero, by the MADT.
pub open spec fn base_of(msr: u64, madt_base: u64) -> u64 {
    let b = msr & 0xF_FFFF_F000;
    if b != 0 {
        b
    } else {
        madt_base
    }
}

/// Whether APIC mode is active.
pub fn enabled(a: &LocalApic) -> (r: bool)
    ensures
        r == a.enabled,
{
    a.enabled
}

/// The Local APIC ID in the value of the ID register.
pub fn local_apic_id(id_reg: u32) -> (r: u32)
    ensures
        r == id_reg / 0x100_0000,
{
    id_reg / 0x100_0000
}

/// Where the Local APIC's registers lie, and the value to write to its base
/// register where the global enable bit is not set.
pub fn init(msr: u64, madt_base: u64) -> (r: (u64, Option<u64>))
    ensures
        r.0 == base_of(msr, madt_base),
        r.1 == if msr & 0x800 == 0 { Some(msr | 0x800) } else { None },
{
    let b: u64 = msr & 0xF_FFFF_F000;
    let base: u64 = if b != 0 { b } else { madt_base };
    if msr & 0x800 == 0 {
        (base, Some(msr | 0x800))
    } else {
        (base, None)
    }
}

impl LocalApic {
    /// All registers have addresses.
    pub open spec fn wf(self) -> bool {
        self.virt <= u64::MAX - 0xFFF
    }

    fn reg_write(&self, offset: u32, value: u32) -> (r: IoOp)
        requires
            self.wf(),
            offset <= 0xFFF,
        ensures
            r == reg_write_op(*self, offset, value),
    {
        IoOp::Write32 { addr: self.virt + offset as u64, value }
    }

    /// Reads the register with the calling CPU's ID.
    pub fn read_id(&self) -> (r: Vec<IoOp>)
        requires
            self.wf(),
        ensures
            r@ == seq![reg_read_op(*self, LAPIC_ID)],
    {
        one_op(IoOp::Read32 { addr: self.virt + LAPIC_ID as u64 })
    }

    /// Signals the end of an interrupt.
    pub fn eoi(&self) -> (r: Vec<IoOp>)
        requires
            self.wf(),
        ensures
            r@ == seq![reg_write_op(*self, LAPIC_EOI, 0)],
    {
        one_op(self.reg_write(LAPIC_EOI, 0))
    }

    /// Enables the Local APIC on the calling CPU: spurious vector and enable
    /// bit, all priorities accepted, local interrupts masked until they are
    /// needed, stale errors cleared.
    pub fn enable_current_cpu(&self) -> (r: Vec<IoOp>)
        requires
            self.wf(),
        ensures
            r@ == seq![
                reg_write_op(*self, LAPIC_SVR, 0x1FF),
                reg_write_op(*self, LAPIC_TPR, 0),
                reg_write_op(*self, LAPIC_LVT_TIMER, LVT_MASKED),
                reg_write_op(*self, LAPIC_LVT_LINT0, LVT_MASKED),
                reg_write_op(*self, LAPIC_LVT_LINT1, LVT_MASKED),
                reg_write_op(*self, LAPIC_LVT_ERROR, ERROR_VECTOR as u32),
                reg_write_op(*self, LAPIC_ESR, 0),
                reg_write_op(*self, LAPIC_ESR, 0),
            ],
    {
        let mut ops: Vec<IoOp> = Vec::new();
        ops.push(self.reg_write(LAPIC_SVR, 0x100 + SPURIOUS_VECTOR as u32));
        ops.push(self.reg_write(LAPIC_TPR, 0));
        ops.push(self.reg_write(LAPIC_LVT_TIMER, LVT_MASKED));
        ops.push(self.reg_write(LAPIC_LVT_LINT0, LVT_MASKED));
        ops.push(self.reg_write(LAPIC_LVT_LINT1, LVT_MASKED));
        ops.push(self.reg_write(LAPIC_LVT_ERROR, ERROR_VECTOR as u32));
        ops.push(self.reg_write(LAPIC_ESR, 0));
        ops.push(self.reg_write(LAPIC_ESR, 0));
        ops
    }

    /// Starts the timer counting down from its maximum without interrupting.
    /// After 10 ms its current count is read and handed to `calibrated`.
    pub fn calibrate_timer(&self) -> (r: Vec<IoOp>)
        requires
            self.wf(),
        ensures
            r@ == seq![
                reg_write_op(*self, LAPIC_TIMER_DIVIDE, TIMER_DIVIDE_BY_16),
                reg_write_op(*self, LAPIC_LVT_TIMER, LVT_MASKED),
                reg_write_op(*self, LAPIC_TIMER_INIT_COUNT, 0xFFFF_FFFF),
            ],
    {
        let mut ops: Vec<IoOp> = Vec::new();
        ops.push(self.reg_write(LAPIC_TIMER_DIVIDE, TIMER_DIVIDE_BY_16));
        ops.push(self.reg_write(LAPIC_LVT_TIMER, LVT_MASKED));
        ops.push(self.reg_write(LAPIC_TIMER_INIT_COUNT, 0xFFFF_FFFF));
        ops
    }

    /// Takes the count after 10 ms, and stops the timer.
    pub fn calibrated(&mut self, current: u32) -> (r: Vec<IoOp>)
        requires
            old(self).wf(),
        ensures
            *final(self) == (LocalApic { ticks_per_10ms: (0xFFFF_FFFF - current) as u32, ..*old(self) }),
            r@ == seq![reg_write_op(*old(self), LAPIC_TIMER_INIT_COUNT, 0)],
    {
        let stop = self.reg_write(LAPIC_TIMER_INIT_COUNT, 0);
        self.ticks_per_10ms = 0xFFFF_FFFF - current;
        one_op(stop)
    }

    /// The initial count for a timer of `hz` interrupts a second, at least 1.
    pub open spec fn timer_count(self, hz: u32) -> u32 {
        let c = self.ticks_per_10ms * 100 / hz as int;
        if c < 1 {
            1
        } else {
            (c % 0x1_0000_0000) as u32
        }
    }

    /// Starts the periodic timer of the calling CPU at `hz`.
    pub fn start_timer(&self, hz: u32) -> (r: Vec<IoOp>)
        requires
            self.wf(),
            self.ticks_per_10ms > 0,
            hz > 0,
        ensures
            r@ == seq![
                reg_write_op(*self, LAPIC_TIMER_DIVIDE, TIMER_DIVIDE_BY_16),
                reg_write_op(*self, LAPIC_LVT_TIMER, (TIMER_PERIODIC + TIMER_VECTOR) as u32),
                reg_write_op(*self, LAPIC_TIMER_INIT_COUNT, self.timer_count(hz)),
            ],
    {
        let c: u64 = self.ticks_per_10ms as u64 * 100 / hz as u64;
        let count: u32 = if c < 1 { 1 } else { (c % 0x1_0000_0000) as u32 };
        let mut ops: Vec<IoOp> = Vec::new();
        ops.push(self.reg_write(LAPIC_TIMER_DIVIDE, TIMER_DIVIDE_BY_16));
        ops.push(self.reg_write(LAPIC_LVT_TIMER, TIMER_PERIODIC + TIMER_VECTOR as u32));
        ops.push(self.reg_write(LAPIC_TIMER_INIT_COUNT, count));
        ops
    }

    fn send_command(&self, apic_id: u32, command: u32) -> (r: Vec<IoOp>)
        requires
            self.wf(),
        ensures
            r@ == icr_ops(*self, apic_id, command),
    {
        let mut ops: Vec<IoOp> = Vec::new();
        ops.push(self.reg_write(LAPIC_ICR_HIGH, (apic_id % 256) * 0x100_0000));
        ops.push(self.reg_write(LAPIC_ICR_LOW, command));
        ops.push(
            IoOp::WaitClear32 { addr: self.virt + LAPIC_ICR_LOW as u64, mask: ICR_PENDING },
        );
        ops
    }

    /// Sends an INIT IPI.
    pub fn send_init(&self, apic_id: u32) -> (r: Vec<IoOp>)
        requires
            self.wf(),
        ensures
            r@ == icr_ops(*self, apic_id, 0x4500),
    {
        self.send_command(apic_id, 0x4500)
    }

    /// Sends a fixed-delivery IPI.
    pub fn send_ipi(&self, apic_id: u32, vector: u8) -> (r: Vec<IoOp>)
        requires
            self.wf(),
        ensures
            r@ == icr_ops(*self, apic_id, (0x4000 + vector) as u32),
    {
        self.send_command(apic_id, 0x4000 + vector as u32)
    }

    /// Sends a startup IPI: the CPU begins at physical address
    /// `vector * 4096`.
    pub fn send_sipi(&self, apic_id: u32, vector: u8) -> (r: Vec<IoOp>)
        requires
            self.wf(),
        ensures
            r@ == icr_ops(*self, apic_id, (0x4600 + vector) as u32),
    {
        self.send_command(apic_id, 0x4600 + vector as u32)
    }
}

/// Ticks of the interval timer in `ms` milliseconds, as many as it counts.
pub open spec fn pit_ticks(ms: u32) -> int {
    let t = PIT_HZ * ms / 1000;
    if t < 0xFFFF {
        t
    } else {
        0xFFFF
    }
}

/// Busy-waits `ms` milliseconds (at most about 54) by the interval timer's
/// speaker channel, whose gate and output are in port 0x61; `gate` is what
/// that port holds. The counter is stopped, loaded, started, awaited and
/// stopped again, with the speaker off.
pub fn pit_wait_ms(ms: u32, gate: u8) -> (r: Vec<IoOp>)
    ensures
        ({
            let off = (gate - gate % 4) as u8;
            r@ == seq![
                IoOp::Out8 { port: 0x61, value: off },
                IoOp::Out8 { port: 0x43, value: 0xB0 },
                IoOp::Out8 { port: 0x42, value: (pit_ticks(ms) % 256) as u8 },
                IoOp::Out8 { port: 0x42, value: (pit_ticks(ms) / 256) as u8 },
                IoOp::Out8 { port: 0x61, value: (off + 1) as u8 },
                IoOp::WaitSet8 { port: 0x61, mask: 0x20 },
                IoOp::Out8 { port: 0x61, value: off },
            ]
        }),
{
    let t: u64 = PIT_HZ * ms as u64 / 1000;
    let ticks: u16 = if t < 0xFFFF { t as u16 } else { 0xFFFF };
    let off: u8 = gate - gate % 4;
    let mut ops: Vec<IoOp> = Vec::new();
    ops.push(IoOp::Out8 { port: 0x61, value: off });
    ops.push(IoOp::Out8 { port: 0x43, value: 0xB0 });
    ops.push(IoOp::Out8 { port: 0x42, value: (ticks % 256) as u8 });
    ops.push(IoOp::Out8 { port: 0x42, value: (ticks / 256) as u8 });
    ops.push(IoOp::Out8 { port: 0x61, value: off + 1 });
    ops.push(IoOp::WaitSet8 { port: 0x61, mask: 0x20 });
    ops.push(IoOp::Out8 { port: 0x61, value: off });
    ops
}

/// The low word of a redirection entry: the vector, and the pin's polarity
/// and trigger mode where the flags name active low and level.
pub open spec fn redirection_low(flags: u16, vector: u8) -> int {
    vector + (if flags % 4 == 3 { 0x2000int } else { 0int }) + (if flags / 4 % 4 == 3 {
        0x8000int
    } else {
        0int
    })
}

/// Routes a global interrupt to a CPU through the I/O APIC whose registers
/// lie at `virt`: the destination first, then the word that unmasks the
/// entry. `None` where the interrupt is not one of this I/O APIC.
pub fn ioapic_route(virt: u64, gsi_base: u32, gsi: u32, flags: u16, vector: u8, dest_apic_id: u32) -> (r:
    Option<Vec<IoOp>>)
    requires
        virt <= u64::MAX - 0xFFF,
        gsi >= gsi_base ==> (gsi - gsi_base) * 2 + 0x11 <= u32::MAX,
    ensures
        match r {
            None => gsi < gsi_base,
            Some(ops) => {
                let reg = (0x10 + (gsi - gsi_base) * 2) as u32;
                let win = (virt + 0x10) as u64;
                &&& gsi >= gsi_base
                &&& ops@ == seq![
                    IoOp::Write32 { addr: virt, value: (reg + 1) as u32 },
                    IoOp::Write32 { addr: win, value: destination(dest_apic_id) },
                    IoOp::Write32 { addr: virt, value: reg },
                    IoOp::Write32 { addr: win, value: redirection_low(flags, vector) as u32 },
                ]
            },
        },
{
    if gsi < gsi_base {
        return None;
    }
    let reg: u32 = 0x10 + (gsi - gsi_base) * 2;
    let mut low: u32 = vector as u32;
    if flags % 4 == 3 {
        low = low + 0x2000;
    }
    if flags / 4 % 4 == 3 {
        low = low + 0x8000;
    }
    let mut ops: Vec<IoOp> = Vec::new();
    ops.push(IoOp::Write32 { addr: virt, value: reg + 1 });
    ops.push(IoOp::Write32 { addr: virt + 0x10, value: (dest_apic_id % 256) * 0x100_0000 });
    ops.push(IoOp::Write32 { addr: virt, value: reg });
    ops.push(IoOp::Write32 { addr: virt + 0x10, value: low });
    Some(ops)
}

/// A command to another processor: its ID in the top byte of the register at
/// 0x310, then the command in the one at 0x300, then a wait until bit 12 of it
/// is clear.
pub proof fn law_command_to_a_processor(a: LocalApic, apic_id: u32, command: u32)
    requires
        a.wf(),
    ensures
        ({
            let ops = icr_ops(a, apic_id, command);
            &&& ops.len() == 3
            &&& ops[0] is Write32 && ops[0]->Write32_addr == a.virt + 0x310
            &&& ops[0]->Write32_value / 0x100_0000 == apic_id % 256
            &&& ops[0]->Write32_value % 0x100_0000 == 0
            &&& ops[1] == (IoOp::Write32 { addr: (a.virt + 0x300) as u64, value: command })
            &&& ops[2] == (IoOp::WaitClear32 { addr: (a.virt + 0x300) as u64, mask: 0x1000 })
        }),
{
}

/// Registers of the local controller lie at their offsets.
pub proof fn law_local_registers(a: LocalApic, offset: u32, value: u32)
    requires
        a.wf(),
        offset <= 0xFFF,
    ensures
        reg_write_op(a, offset, value) == (IoOp::Write32 { addr: (a.virt + offset) as u64, value }),
        reg_read_op(a, offset) == (IoOp::Read32 { addr: (a.virt + offset) as u64 }),
        LAPIC_ID == 0x20 && LAPIC_TPR == 0x80 && LAPIC_EOI == 0xB0 && LAPIC_SVR == 0xF0,
        LAPIC_LVT_TIMER == 0x320 && LAPIC_TIMER_INIT_COUNT == 0x380 && LAPIC_TIMER_CUR_COUNT == 0x390,
        LAPIC_TIMER_DIVIDE == 0x3E0 && LAPIC_LVT_ERROR == 0x370 && LAPIC_ESR == 0x280,
        LAPIC_LVT_LINT0 == 0x350 && LAPIC_LVT_LINT1 == 0x360,
        LVT_MASKED == 0x1_0000 && TIMER_PERIODIC == 0x2_0000 && TIMER_DIVIDE_BY_16 == 3,
        TIMER_VECTOR == 32 && KEYBOARD_VECTOR == 33 && RESCHED_VECTOR == 48,
{
}

/// The timer counts so much that it fires `hz` times a second: the most with
/// which it does so often, by what it counted in ten milliseconds; at least
/// one.
pub proof fn law_timer_rate(a: LocalApic, hz: u32)
    requires
        hz > 0,
        a.ticks_per_10ms * 100 / hz as int <= u32::MAX,
    ensures
        ({
            let count = a.timer_count(hz) as int;
            let per_second = a.ticks_per_10ms * 100;
            &&& count >= 1
            &&& per_second >= hz ==> count * hz <= per_second < (count + 1) * hz
            &&& per_second < hz ==> count == 1
        }),
{
    let p = a.ticks_per_10ms * 100;
    let h = hz as int;
    vstd::arithmetic::div_mod::lemma_fundamental_div_mod(p, h);
    vstd::arithmetic::div_mod::lemma_mod_bound(p, h);
    let c = p / h;
    assert(c * h == h * c) by (nonlinear_arith);
    assert((c + 1) * h == h * c + h) by (nonlinear_arith);
    if p >= h {
        assert(c >= 1) by (nonlinear_arith)
            requires
                p == h * c + p % h,
                0 <= p % h < h,
                p >= h,
        ;
    } else {
        assert(c < 1) by (nonlinear_arith)
            requires
                p == h * c + p % h,
                0 <= p % h < h,
                p < h,
        ;
    }
}

/// A wait of some milliseconds takes as many beats of 1193182 Hz as it can
/// count, at most 65535.
pub proof fn law_wait_in_beats(ms: u32)
    ensures
        pit_ticks(ms) <= 65535,
        pit_ticks(ms) < 65535 ==> 1000 * pit_ticks(ms) <= 1193182 * ms < 1000 * (pit_ticks(ms) + 1),
        pit_ticks(10) == 11931,
{
}

/// How an interrupt is routed: to its vector, active low where the two low
/// bits of the flags say so, and level-triggered where the next two do.
pub proof fn law_redirection(flags: u16, vector: u8)
    ensures
        redirection_low(flags, vector) % 0x100 == vector,
        redirection_low(flags, vector) / 0x2000 % 2 == 1 <==> flags % 4 == 3,
        redirection_low(flags, vector) / 0x8000 % 2 == 1 <==> flags / 4 % 4 == 3,
        redirection_low(flags, vector) / 0x100 % 0x20 == 0,
        redirection_low(flags, vector) < 0x1_0000,
{
}

/// The local controllers lie where the register of the processor says, or
/// where the table says if it does not.
pub proof fn law_local_base(msr: u64, madt_base: u64)
    ensures
        ({
            let b = msr % 0x10_0000_0000 - msr % 0x1000;
            base_of(msr, madt_base) == if b != 0 {
                b
            } else {
                madt_base as int
            }
        }),
{
    assert(msr & 0xF_FFFF_F000 == msr % 0x10_0000_0000 - msr % 0x1000) by (bit_vector);
}

} // verus!
