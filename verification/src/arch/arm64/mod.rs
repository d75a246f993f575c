//! The 64-bit ARM machine.

pub mod bcm2836;
pub mod boot;
pub mod exceptions;
pub mod fdt;
pub mod fdt_laws;
pub mod gic;
pub mod irq;
pub mod memory;
pub mod mmu;
pub mod mmu_laws;
pub mod pcie;
pub mod serial;
pub mod smp;
pub mod timer;
pub mod virtio_mmio;

use vstd::prelude::*;
use crate::io::IoOp;
use crate::smp::Cpus;
use irq::{can_name, resched_ops, target_id, Irq};

verus! {

/// Name of the architecture.
pub const NAME: &'static str = "arm64";

/// Machine number of executables for this architecture.
pub const ELF_MACHINE: u16 = 0xB7;

/// How user code enters the kernel.
pub const SYSCALL_MECHANISM: &'static str = "svc #0 from EL0";

/// Where a reschedule interrupt for the calling CPU goes.
pub fn hw_cpu_id(irq: &Irq, mpidr: u64, mask: u32) -> (r: u32)
    ensures
        r == target_id(*irq, mpidr, mask),
{
    irq::cpu_target_id(irq, mpidr, mask)
}

/// Reschedule interrupts can always be sent.
pub fn ipi_available() -> (r: bool)
    ensures
        r,
{
    true
}

/// Kicks the CPU with this target into its scheduler.
pub fn send_resched_ipi(irq: &Irq, hw_id: u32) -> (r: Vec<IoOp>)
    requires
        irq.wf(),
        can_name(*irq, hw_id),
    ensures
        r@ == resched_ops(*irq, hw_id),
{
    irq::send_resched(irq, hw_id)
}

/// Number of CPUs that are online.
pub fn cpus_online(c: &Cpus) -> (r: usize)
    ensures
        r == c.online,
{
    crate::smp::cpus_online(c)
}

/// Counts from one tick to the next of the calling CPU's timer, which starts.
pub fn start_tick(frequency: u64, hz: u32, boot_cpu: bool) -> (r: u64)
    requires
        hz > 0,
    ensures
        r == frequency as int / hz as int,
{
    timer::start(frequency, hz)
}

/// The count at which a delay of `ms` milliseconds is over.
pub fn delay_ms(now: u64, frequency: u64, ms: u32) -> (r: u64)
    requires
        frequency * ms <= u64::MAX,
        now + frequency * ms / 1000 <= u64::MAX,
    ensures
        r == now + frequency * ms / 1000,
{
    timer::delay_ms(now, frequency, ms)
}

/// Before a user task runs: nothing to do, for its exceptions land on its
/// kernel stack by themselves.
pub fn on_switch_to_user(cpu: usize, kstack_top: u64) -> (r: Vec<IoOp>)
    ensures
        r@ == Seq::<IoOp>::empty(),
{
    Vec::new()
}

} // verus!
