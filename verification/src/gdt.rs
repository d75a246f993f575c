//! Segment selectors and the stacks for entries from user mode.

use vstd::prelude::*;
use crate::scheduler::model::MAX_CPUS;

verus! {

/// User code selector (entry 4, privilege level 3).
pub const USER_CS: u64 = 0x23;

/// User data selector (entry 3, privilege level 3).
pub const USER_SS: u64 = 0x1B;

/// Index of the stack for double faults.
pub const DOUBLE_FAULT_IST_INDEX: u16 = 0;

/// The stack that each CPU loads when an interrupt arrives from user mode;
/// `None` for a CPU that has no task state segment yet.
pub struct KernelStacks {
    pub rsp0: [Option<u64>; MAX_CPUS],
}

impl KernelStacks {
    /// No CPU has a task state segment.
    pub fn new() -> (r: Self)
        ensures
            r.rsp0@ =~= Seq::new(MAX_CPUS as nat, |i: int| None::<u64>),
    {
        KernelStacks { rsp0: [None; 64] }
    }

    /// `cpu` has loaded its task state segment, with no stack set.
    pub fn init_ap(&mut self, cpu: usize)
        requires
            cpu < MAX_CPUS,
        ensures
            final(self).rsp0@ == old(self).rsp0@.update(cpu as int, Some(0u64)),
    {
        self.rsp0[cpu] = Some(0);
    }
}

/// Points the stack of `cpu` at `stack_top`, the incoming user task's kernel
/// stack; a CPU without a task state segment is left alone.
pub fn set_kernel_stack(s: &mut KernelStacks, cpu: usize, stack_top: u64)
    requires
        cpu < MAX_CPUS,
    ensures
        final(s).rsp0@ == if old(s).rsp0@[cpu as int] is Some {
            old(s).rsp0@.update(cpu as int, Some(stack_top))
        } else {
            old(s).rsp0@
        },
{
    if s.rsp0[cpu].is_some() {
        s.rsp0[cpu] = Some(stack_top);
    }
}

} // verus!
