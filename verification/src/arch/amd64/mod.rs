//! The 64-bit x86 machine: which CPU is which, interrupts between CPUs, and
//! the tick.

pub mod boot;
pub mod context;
pub mod memory;
pub mod usb;

use vstd::prelude::*;
use crate::apic::{
    icr_ops, pit_ticks, pit_wait_ms, reg_write_op, LocalApic, LAPIC_LVT_TIMER,
    LAPIC_TIMER_DIVIDE, LAPIC_TIMER_INIT_COUNT, RESCHED_VECTOR, TIMER_DIVIDE_BY_16,
    TIMER_PERIODIC, TIMER_VECTOR,
};
use crate::io::{join_ops, one_op, IoOp};
use crate::smp::Cpus;

verus! {

/// Name of the architecture.
pub const NAME: &'static str = "amd64";

/// Machine number of executables for this architecture.
pub const ELF_MACHINE: u16 = 0x3E;

/// How user code enters the kernel.
pub const SYSCALL_MECHANISM: &'static str = "int 0x80 gate (DPL 3)";

/// Scheduler indices of the CPUs by Local APIC ID.
pub struct CpuMap {
    pub by_apic_id: [u32; 256],
}

impl CpuMap {
    /// Every ID stands for CPU 0.
    pub fn new() -> (r: Self)
        ensures
            r.by_apic_id@ =~= Seq::new(256, |i: int| 0u32),
    {
        CpuMap { by_apic_id: [0; 256] }
    }
}

/// The Local APIC ID in the value of the ID register, 0 without an APIC.
pub open spec fn hw_id(apic: LocalApic, id_reg: u32) -> u32 {
    if apic.enabled {
        id_reg / 0x100_0000
    } else {
        0
    }
}

/// Scheduler index of the calling CPU, whose ID register holds `id_reg`.
pub fn cpu_index(map: &CpuMap, apic: &LocalApic, id_reg: u32) -> (r: usize)
    ensures
        r == if apic.enabled {
            map.by_apic_id@[id_reg as int / 0x100_0000]
        } else {
            0
        },
{
    if !apic.enabled {
        return 0;
    }
    map.by_apic_id[(id_reg / 0x100_0000) as usize] as usize
}

/// The calling CPU's Local APIC ID, 0 without an APIC.
pub fn hw_cpu_id(apic: &LocalApic, id_reg: u32) -> (r: u32)
    ensures
        r == hw_id(*apic, id_reg),
{
    if apic.enabled {
        crate::apic::local_apic_id(id_reg)
    } else {
        0
    }
}

/// Records the calling CPU's scheduler index.
pub fn set_cpu_index(map: &mut CpuMap, apic: &LocalApic, id_reg: u32, cpu: usize)
    requires
        cpu <= u32::MAX,
    ensures
        final(map).by_apic_id@ == old(map).by_apic_id@.update(
            hw_id(*apic, id_reg) as int,
            cpu as u32,
        ),
{
    let id: usize = hw_cpu_id(apic, id_reg) as usize;
    map.by_apic_id[id] = cpu as u32;
}

/// A CPU that recorded its index finds it again, and every other CPU finds
/// what it found before.
pub proof fn law_recorded_index_is_found(map: Seq<u32>, id: int, other: int, cpu: u32)
    requires
        map.len() == 256,
        0 <= id < 256,
        0 <= other < 256,
    ensures
        map.update(id, cpu)[id] == cpu,
        other != id ==> map.update(id, cpu)[other] == map[other],
{
}

/// Whether reschedule interrupts can be sent.
pub fn ipi_available(apic: &LocalApic) -> (r: bool)
    ensures
        r == apic.enabled,
{
    apic.enabled
}

/// Kicks the CPU with Local APIC ID `hw_id` into its scheduler.
pub fn send_resched_ipi(apic: &LocalApic, hw_id: u32) -> (r: Vec<IoOp>)
    requires
        apic.wf(),
    ensures
        r@ == icr_ops(*apic, hw_id, (0x4000 + RESCHED_VECTOR) as u32),
{
    apic.send_ipi(hw_id, RESCHED_VECTOR)
}

/// Number of CPUs that were brought online.
pub fn cpus_online(c: &Cpus) -> (r: usize)
    ensures
        r == c.online,
{
    crate::smp::cpus_online(c)
}

/// The divisor that the interval timer gets for `hz` interrupts a second, as
/// far as it holds it.
pub open spec fn pit_divisor(hz: u32) -> int {
    (1193182u32 / hz) as int % 0x1_0000
}

/// The accesses that start the interval timer at `hz`: channel 0, low byte
/// and high byte, square wave.
pub open spec fn pit_start(hz: u32) -> Seq<IoOp> {
    seq![
        IoOp::Out8 { port: 0x43, value: 0x36 },
        IoOp::Out8 { port: 0x40, value: (pit_divisor(hz) % 256) as u8 },
        IoOp::Out8 { port: 0x40, value: (pit_divisor(hz) / 256) as u8 },
    ]
}

fn init_pit(hz: u32) -> (r: Vec<IoOp>)
    requires
        hz > 0,
    ensures
        r@ == pit_start(hz),
{
    let divisor: u32 = (1193182u32 / hz) % 0x1_0000;
    let mut ops: Vec<IoOp> = Vec::new();
    ops.push(IoOp::Out8 { port: 0x43, value: 0x36 });
    ops.push(IoOp::Out8 { port: 0x40, value: (divisor % 256) as u8 });
    ops.push(IoOp::Out8 { port: 0x40, value: (divisor / 256) as u8 });
    ops
}

/// Starts the calling CPU's scheduler tick: its local timer in APIC mode,
/// else, on the boot CPU only, the interval timer, whose interrupt is
/// unmasked.
pub fn start_tick(hz: u32, boot_cpu: bool, apic: &LocalApic) -> (r: Vec<IoOp>)
    requires
        hz > 0,
        apic.enabled ==> apic.wf() && apic.ticks_per_10ms > 0,
    ensures
        r@ == if apic.enabled {
            seq![
                reg_write_op(*apic, LAPIC_TIMER_DIVIDE, TIMER_DIVIDE_BY_16),
                reg_write_op(*apic, LAPIC_LVT_TIMER, (TIMER_PERIODIC + TIMER_VECTOR) as u32),
                reg_write_op(*apic, LAPIC_TIMER_INIT_COUNT, apic.timer_count(hz)),
            ]
        } else if boot_cpu {
            pit_start(hz) + seq![IoOp::OutModify8 { port: 0x21, clear: 1, set: 0 }]
        } else {
            Seq::empty()
        },
{
    if apic.enabled {
        apic.start_timer(hz)
    } else if boot_cpu {
        join_ops(init_pit(hz), one_op(IoOp::OutModify8 { port: 0x21, clear: 1, set: 0 }))
    } else {
        Vec::new()
    }
}

/// Busy-waits about `ms` milliseconds; `gate` is what port 0x61 holds.
pub fn delay_ms(ms: u32, gate: u8) -> (r: Vec<IoOp>)
    ensures
        ({
            let off = (gate - gate % 4) as u8;
            r@ == seq![
                IoOp::Out8 { port: 0x61, value: off },
                IoOp::Out8 { port: 0x43, value: 0xB0 },
                IoOp::Out8 { port: 0x42, value: (pit_ticks(ms) % 256) as u8 },
                IoOp::Out8 { port: 0x42, value: (pit_ticks(ms) / 256) as u8 },
                IoOp::Out8 { port: 0x61, value: (off + 1) as u8 },
                IoOp::WaitSet8 { port: 0x61, mask: 0x20 },
                IoOp::Out8 { port: 0x61, value: off },
            ]
        }),
{
    pit_wait_ms(ms, gate)
}

/// Makes freshly written code visible to instruction fetch: nothing to do,
/// for the instruction caches follow writes.
pub fn sync_icache(kva: u64, len: u64) -> (r: Vec<IoOp>)
    ensures
        r@ == Seq::<IoOp>::empty(),
{
    Vec::new()
}

/// A processor is known by the top byte of its local controller's identification register, and is
/// number 0 where there is no controller.
pub proof fn law_processor_number(apic: LocalApic, id_reg: u32)
    ensures
        apic.enabled ==> hw_id(apic, id_reg) * 0x100_0000 <= id_reg < (hw_id(apic, id_reg) + 1)
            * 0x100_0000,
        !apic.enabled ==> hw_id(apic, id_reg) == 0,
{
}

/// The timer chip divides its 1193182 Hz by the number that comes nearest to the asked rate from
/// above, where sixteen bits hold that number. Counter 0 is told so at port 0x40, the low byte first,
/// after mode 3 was chosen at port 0x43.
pub proof fn law_tick_divisor(hz: u32)
    requires
        hz > 0,
    ensures
        hz >= 19 ==> pit_divisor(hz) * hz <= 1193182 < (pit_divisor(hz) + 1) * hz,
        pit_start(hz).len() == 3,
        pit_start(hz)[0] == (IoOp::Out8 { port: 0x43, value: 0x36 }),
        pit_start(hz)[1] is Out8 && pit_start(hz)[2] is Out8,
        pit_start(hz)[1]->Out8_port == 0x40,
        pit_start(hz)[2]->Out8_port == 0x40,
        pit_start(hz)[1]->Out8_value + 256 * pit_start(hz)[2]->Out8_value == pit_divisor(hz),
        0 <= pit_divisor(hz) < 0x1_0000,
{
    let q = 1193182u32 / hz;
    assert(q * hz <= 1193182 < (q + 1) * hz) by (nonlinear_arith)
        requires
            hz > 0,
            q == 1193182u32 / hz,
    ;
    if hz >= 19 {
        assert(q <= 62799) by (nonlinear_arith)
            requires
                hz >= 19,
                q * hz <= 1193182,
        ;
    }
}

} // verus!
