//! Saved registers of tasks: the frame that the timer, yield and syscall
//! entries push, and the first frames of new tasks.

use vstd::prelude::*;
use crate::apic::LocalApic;
use crate::gdt::{set_kernel_stack, KernelStacks, USER_CS, USER_SS};
use crate::interrupts::{eoi_ops, irq_eoi};
use crate::io::IoOp;
use crate::scheduler::model::MAX_CPUS;

verus! {

/// Software interrupt by which a task gives up the CPU: the same save and
/// switch as for the timer, without an end of interrupt.
pub const YIELD_VECTOR: u8 = 0x31;

/// Interrupt vector for syscalls.
pub const SYSCALL_VECTOR: u8 = 0x80;

/// Saved registers of a task, in the order in which they lie on its stack;
/// from `rip` on they are what the CPU pushes for an interrupt.
#[derive(Debug, Clone, Copy, PartialEq, Eq, Structural)]
pub struct TaskContext {
    pub r15: u64,
    pub r14: u64,
    pub r13: u64,
    pub r12: u64,
    pub r11: u64,
    pub r10: u64,
    pub r9: u64,
    pub r8: u64,
    pub rdi: u64,
    pub rsi: u64,
    pub rbp: u64,
    pub rbx: u64,
    pub rdx: u64,
    pub rcx: u64,
    pub rax: u64,
    pub rip: u64,
    pub cs: u64,
    pub rflags: u64,
    pub rsp: u64,
    pub ss: u64,
}

impl TaskContext {
    /// All registers are zero.
    pub open spec fn zero() -> TaskContext {
        TaskContext {
            r15: 0,
            r14: 0,
            r13: 0,
            r12: 0,
            r11: 0,
            r10: 0,
            r9: 0,
            r8: 0,
            rdi: 0,
            rsi: 0,
            rbp: 0,
            rbx: 0,
            rdx: 0,
            rcx: 0,
            rax: 0,
            rip: 0,
            cs: 0,
            rflags: 0,
            rsp: 0,
            ss: 0,
        }
    }

    /// The registers as they lie on the stack, from the lowest address on.
    pub open spec fn words(self) -> Seq<u64> {
        seq![
            self.r15,
            self.r14,
            self.r13,
            self.r12,
            self.r11,
            self.r10,
            self.r9,
            self.r8,
            self.rdi,
            self.rsi,
            self.rbp,
            self.rbx,
            self.rdx,
            self.rcx,
            self.rax,
            self.rip,
            self.cs,
            self.rflags,
            self.rsp,
            self.ss,
        ]
    }

    fn zeroed() -> (r: Self)
        ensures
            r == TaskContext::zero(),
    {
        TaskContext {
            r15: 0,
            r14: 0,
            r13: 0,
            r12: 0,
            r11: 0,
            r10: 0,
            r9: 0,
            r8: 0,
            rdi: 0,
            rsi: 0,
            rbp: 0,
            rbx: 0,
            rdx: 0,
            rcx: 0,
            rax: 0,
            rip: 0,
            cs: 0,
            rflags: 0,
            rsp: 0,
            ss: 0,
        }
    }

    /// The registers as they lie on the stack, from the lowest address on.
    pub fn to_words(&self) -> (r: Vec<u64>)
        ensures
            r@ == self.words(),
            r@.len() == 20,
    {
        let mut w: Vec<u64> = Vec::new();
        w.push(self.r15);
        w.push(self.r14);
        w.push(self.r13);
        w.push(self.r12);
        w.push(self.r11);
        w.push(self.r10);
        w.push(self.r9);
        w.push(self.r8);
        w.push(self.rdi);
        w.push(self.rsi);
        w.push(self.rbp);
        w.push(self.rbx);
        w.push(self.rdx);
        w.push(self.rcx);
        w.push(self.rax);
        w.push(self.rip);
        w.push(self.cs);
        w.push(self.rflags);
        w.push(self.rsp);
        w.push(self.ss);
        w
    }
}

/// First frame of a kernel task: the return from interrupt lands in `entry`
/// at privilege level 0, on `stack_top`, with interrupts enabled.
pub fn kernel_context(entry: u64, stack_top: u64) -> (r: TaskContext)
    ensures
        r == (TaskContext {
            rip: entry,
            cs: 0x08,
            rflags: 0x202,
            rsp: stack_top,
            ss: 0x10,
            ..TaskContext::zero()
        }),
{
    let mut c = TaskContext::zeroed();
    c.rip = entry;
    c.cs = 0x08;
    c.rflags = 0x202;
    c.rsp = stack_top;
    c.ss = 0x10;
    c
}

/// First frame of a user task: the return from interrupt lands in `entry` at
/// privilege level 3, on `user_sp`, with `arg` as first argument, interrupts
/// enabled and no I/O privilege.
pub fn user_context(entry: u64, user_sp: u64, arg: u64, kstack_top: u64) -> (r: TaskContext)
    ensures
        r == (TaskContext {
            rip: entry,
            cs: USER_CS,
            rflags: 0x202,
            rsp: user_sp,
            ss: USER_SS,
            rdi: arg,
            ..TaskContext::zero()
        }),
{
    let mut c = TaskContext::zeroed();
    c.rip = entry;
    c.cs = USER_CS;
    c.rflags = 0x202;
    c.rsp = user_sp;
    c.ss = USER_SS;
    c.rdi = arg;
    c
}

/// Before a user task runs: entries from user mode land on its own kernel
/// stack.
pub fn on_switch_to_user(stacks: &mut KernelStacks, cpu: usize, kstack_top: u64)
    requires
        cpu < MAX_CPUS,
    ensures
        final(stacks).rsp0@ == if old(stacks).rsp0@[cpu as int] is Some {
            old(stacks).rsp0@.update(cpu as int, Some(kstack_top))
        } else {
            old(stacks).rsp0@
        },
{
    set_kernel_stack(stacks, cpu, kstack_top);
}

/// Acknowledges the timer or reschedule interrupt before the scheduler
/// switches: at the Local APIC in APIC mode, else at the legacy controllers.
pub fn schedule_and_switch(apic: &LocalApic) -> (r: Vec<IoOp>)
    requires
        apic.wf(),
    ensures
        r@ == if apic.enabled {
            seq![IoOp::Write32 { addr: (apic.virt + 0x0B0) as u64, value: 0 }]
        } else {
            eoi_ops(0)
        },
{
    irq_eoi(if apic.enabled { Some(apic.virt) } else { None }, 0)
}

/// The syscall in the saved registers of its caller.
#[derive(Debug, Clone, Copy, PartialEq, Eq, Structural)]
pub struct SyscallRegs {
    pub number: u64,
    pub arg1: u64,
    pub arg2: u64,
    pub arg3: u64,
    pub arg4: u64,
    pub arg5: u64,
    /// Privilege level of the caller.
    pub privilege: u64,
}

/// The syscall in the saved registers of its caller.
pub fn syscall_regs(frame: &TaskContext) -> (r: SyscallRegs)
    ensures
        r.number == frame.rax,
        r.arg1 == frame.rdi,
        r.arg2 == frame.rsi,
        r.arg3 == frame.rdx,
        r.arg4 == frame.r10,
        r.arg5 == frame.r8,
        r.privilege == frame.cs % 4,
{
    SyscallRegs {
        number: frame.rax,
        arg1: frame.rdi,
        arg2: frame.rsi,
        arg3: frame.rdx,
        arg4: frame.r10,
        arg5: frame.r8,
        privilege: frame.cs % 4,
    }
}

/// Stores the result of a syscall; all other registers keep their values.
pub fn syscall_return(frame: &mut TaskContext, value: u64)
    ensures
        *final(frame) == (TaskContext { rax: value, ..*old(frame) }),
{
    frame.rax = value;
}

/// A saved frame has, from its low end, the general registers from r15 down to rax and then the five
/// words that the processor restores: where to go on, with which code segment, flags, stack and stack
/// segment.
pub proof fn law_frame_order(c: TaskContext)
    ensures
        c.words().len() == 20,
        c.words()[0] == c.r15,
        c.words()[1] == c.r14,
        c.words()[2] == c.r13,
        c.words()[3] == c.r12,
        c.words()[4] == c.r11,
        c.words()[5] == c.r10,
        c.words()[6] == c.r9,
        c.words()[7] == c.r8,
        c.words()[8] == c.rdi,
        c.words()[9] == c.rsi,
        c.words()[10] == c.rbp,
        c.words()[11] == c.rbx,
        c.words()[12] == c.rdx,
        c.words()[13] == c.rcx,
        c.words()[14] == c.rax,
        c.words()[15] == c.rip,
        c.words()[16] == c.cs,
        c.words()[17] == c.rflags,
        c.words()[18] == c.rsp,
        c.words()[19] == c.ss,
{
}

/// A blank frame is all zeros.
pub proof fn law_blank_frame(i: int)
    requires
        0 <= i < 20,
    ensures
        TaskContext::zero().words()[i] == 0,
{
}

/// User code runs in ring 3, and the kernel is entered through the vectors 0x31 and 0x80.
pub proof fn law_rings()
    ensures
        USER_CS == 0x23,
        USER_SS == 0x1B,
        USER_CS % 4 == 3,
        USER_SS % 4 == 3,
        YIELD_VECTOR == 0x31,
        SYSCALL_VECTOR == 0x80,
{
}

} // verus!
