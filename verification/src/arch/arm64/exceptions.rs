//! Exceptions: the register frame, which is also the saved context of a task,
//! and what is done for each exception.

use vstd::prelude::*;
use vstd::string::StringSliceAdditionalSpecFns;
use crate::line::{blank, BoundedLine, LineSize};
use crate::serial::hex;

verus! {

/// Program status of a kernel task: exception level 1, interrupts enabled.
pub const SPSR_EL1H: u64 = 0b0101;

/// Program status of a user task: exception level 0, interrupts enabled.
pub const SPSR_EL0T: u64 = 0b0000;

/// Saved registers: the general ones, the user stack pointer, where to go on,
/// and the program status.
#[derive(Clone, Copy)]
pub struct TaskContext {
    pub x: [u64; 31],
    pub sp_el0: u64,
    pub elr: u64,
    pub spsr: u64,
}

/// First frame of a kernel task: the return from exception lands in `entry`
/// in the kernel with interrupts enabled; the stack pointer is left at the
/// frame's end.
pub fn kernel_context(entry: u64, stack_top: u64) -> (r: TaskContext)
    ensures
        r.x@ =~= Seq::new(31, |i: int| 0u64),
        r.sp_el0 == 0,
        r.elr == entry,
        r.spsr == SPSR_EL1H,
{
    TaskContext { x: [0; 31], sp_el0: 0, elr: entry, spsr: SPSR_EL1H }
}

/// First frame of a user task: the return from exception lands in `entry` in
/// user mode on `user_sp`, with `arg` as first argument.
pub fn user_context(entry: u64, user_sp: u64, arg: u64, kstack_top: u64) -> (r: TaskContext)
    ensures
        r.x@ =~= Seq::new(31, |i: int| 0u64).update(0, arg),
        r.sp_el0 == user_sp,
        r.elr == entry,
        r.spsr == SPSR_EL0T,
{
    let mut x: [u64; 31] = [0; 31];
    x[0] = arg;
    TaskContext { x, sp_el0: user_sp, elr: entry, spsr: SPSR_EL0T }
}

pub const EC_UNKNOWN: u64 = 0x00;

pub const EC_FP_ACCESS: u64 = 0x07;

pub const EC_ILLEGAL_STATE: u64 = 0x0E;

pub const EC_SVC64: u64 = 0x15;

pub const EC_SYSREG: u64 = 0x18;

pub const EC_IABT_LOWER: u64 = 0x20;

pub const EC_PC_ALIGN: u64 = 0x22;

pub const EC_DABT_LOWER: u64 = 0x24;

pub const EC_SP_ALIGN: u64 = 0x26;

pub const EC_BRK: u64 = 0x3C;

/// The exception class in a syndrome.
pub open spec fn class_of(esr: u64) -> u64 {
    esr / 0x400_0000
}

/// What is done for an exception.
#[derive(Debug, Clone, Copy, PartialEq, Eq, Structural)]
pub enum ExceptionAction {
    /// A kernel task gives up the CPU.
    Yield,
    /// An interrupt is handled.
    Interrupt,
    /// A syscall is handled.
    Syscall,
    /// The user task is killed.
    UserFault,
    /// The kernel stops, for a synchronous exception of its own.
    KernelFault,
    /// The kernel stops, for an exception that is never expected.
    Unexpected,
}

/// What is done for an exception of this kind with this syndrome. Kinds 4
/// and 5 are the kernel's own synchronous exceptions and interrupts, 8 and 9
/// those of user code.
pub open spec fn action_for(kind: u64, esr: u64) -> ExceptionAction {
    if kind == 4 {
        if class_of(esr) == EC_SVC64 {
            ExceptionAction::Yield
        } else {
            ExceptionAction::KernelFault
        }
    } else if kind == 5 || kind == 9 {
        ExceptionAction::Interrupt
    } else if kind == 8 {
        if class_of(esr) == EC_SVC64 {
            ExceptionAction::Syscall
        } else {
            ExceptionAction::UserFault
        }
    } else {
        ExceptionAction::Unexpected
    }
}

/// What is done for an exception of this kind with this syndrome.
pub fn arm64_exception(kind: u64, esr: u64) -> (r: ExceptionAction)
    ensures
        r == action_for(kind, esr),
{
    let svc = esr / 0x400_0000 == EC_SVC64;
    match kind {
        4 => if svc {
            ExceptionAction::Yield
        } else {
            ExceptionAction::KernelFault
        },
        5 => ExceptionAction::Interrupt,
        9 => ExceptionAction::Interrupt,
        8 => if svc {
            ExceptionAction::Syscall
        } else {
            ExceptionAction::UserFault
        },
        _ => ExceptionAction::Unexpected,
    }
}

/// No exception of user code stops the kernel: it is an interrupt, a syscall,
/// or the end of the task.
pub proof fn law_user_exceptions_never_stop_the_kernel(kind: u64, esr: u64)
    requires
        kind == 8 || kind == 9,
    ensures
        !(action_for(kind, esr) is KernelFault),
        !(action_for(kind, esr) is Unexpected),
{
}

/// The number and the arguments of a syscall, in the registers of its caller.
pub fn syscall_regs(frame: &TaskContext) -> (r: (u64, [u64; 5]))
    ensures
        r.0 == frame.x@[8],
        r.1@ =~= frame.x@.take(5),
{
    (frame.x[8], [frame.x[0], frame.x[1], frame.x[2], frame.x[3], frame.x[4]])
}

/// Stores the result of a syscall; all other registers keep their values.
pub fn syscall_return(frame: &mut TaskContext, value: u64)
    ensures
        final(frame).x@ == old(frame).x@.update(0, value),
        final(frame).sp_el0 == old(frame).sp_el0,
        final(frame).elr == old(frame).elr,
        final(frame).spsr == old(frame).spsr,
{
    frame.x[0] = value;
}

/// What is said of a fault of user code with this syndrome.
pub open spec fn fault_text(esr: u64) -> Seq<char> {
    let ec = class_of(esr);
    let fault = esr % 64 / 4;
    if ec == EC_DABT_LOWER {
        if fault == 3 {
            "data abort (permission fault)"@
        } else if fault == 1 {
            "data abort (translation fault)"@
        } else {
            "data abort"@
        }
    } else if ec == EC_IABT_LOWER {
        if fault == 3 {
            "instruction abort (permission fault)"@
        } else {
            "instruction abort"@
        }
    } else if ec == EC_SYSREG {
        "trapped system instruction"@
    } else if ec == EC_UNKNOWN {
        "undefined instruction"@
    } else if ec == EC_FP_ACCESS {
        "FP/SIMD access"@
    } else if ec == EC_PC_ALIGN {
        "PC alignment fault"@
    } else if ec == EC_SP_ALIGN {
        "SP alignment fault"@
    } else if ec == EC_ILLEGAL_STATE {
        "illegal execution state"@
    } else if ec == EC_BRK {
        "breakpoint"@
    } else {
        "synchronous exception"@
    }
}

/// What is said of a fault of user code, and the address that it was at where
/// the fault has one: `far` is what the fault address register holds.
pub fn user_fault(esr: u64, far: u64) -> (r: (&'static str, Option<u64>))
    ensures
        r.0@ == fault_text(esr),
        r.1 == if class_of(esr) == EC_DABT_LOWER || class_of(esr) == EC_IABT_LOWER {
            Some(far)
        } else {
            None
        },
{
    let ec: u64 = esr / 0x400_0000;
    let fault: u64 = esr % 64 / 4;
    if ec == EC_DABT_LOWER {
        let what: &'static str = if fault == 3 {
            "data abort (permission fault)"
        } else if fault == 1 {
            "data abort (translation fault)"
        } else {
            "data abort"
        };
        (what, Some(far))
    } else if ec == EC_IABT_LOWER {
        let what: &'static str = if fault == 3 {
            "instruction abort (permission fault)"
        } else {
            "instruction abort"
        };
        (what, Some(far))
    } else if ec == EC_SYSREG {
        ("trapped system instruction", None)
    } else if ec == EC_UNKNOWN {
        ("undefined instruction", None)
    } else if ec == EC_FP_ACCESS {
        ("FP/SIMD access", None)
    } else if ec == EC_PC_ALIGN {
        ("PC alignment fault", None)
    } else if ec == EC_SP_ALIGN {
        ("SP alignment fault", None)
    } else if ec == EC_ILLEGAL_STATE {
        ("illegal execution state", None)
    } else if ec == EC_BRK {
        ("breakpoint", None)
    } else {
        ("synchronous exception", None)
    }
}

/// The report of an exception in the kernel.
pub open spec fn kernel_fault_text(what: Seq<u8>, esr: u64, elr: u64, far: u64) -> Seq<u8> {
    "\n[EXC] Kernel ".spec_bytes() + what + ": ESR=0x".spec_bytes() + hex(esr as nat)
        + " (EC 0x".spec_bytes() + hex(class_of(esr) as nat) + ") ELR=0x".spec_bytes() + hex(
        elr as nat,
    ) + " FAR=0x".spec_bytes() + hex(far as nat) + "\n".spec_bytes()
}

/// The same as it fits a line of 160 bytes.
pub open spec fn kernel_fault_line(what: Seq<u8>, esr: u64, elr: u64, far: u64) -> Seq<u8> {
    blank(160).put("\n[EXC] Kernel ".spec_bytes()).put(what).put(": ESR=0x".spec_bytes()).put(
        hex(esr as nat),
    ).put(" (EC 0x".spec_bytes()).put(hex(class_of(esr) as nat)).put(") ELR=0x".spec_bytes()).put(
        hex(elr as nat),
    ).put(" FAR=0x".spec_bytes()).put(hex(far as nat)).put("\n".spec_bytes()).bytes
}

/// The report of an exception in the kernel, which then stops.
pub fn kernel_fault(what: &str, esr: u64, elr: u64, far: u64) -> (r: Vec<u8>)
    ensures
        r@ == kernel_fault_line(what.spec_bytes(), esr, elr, far),
        ({
            let text = kernel_fault_text(what.spec_bytes(), esr, elr, far);
            text.len() <= 160 ==> r@ =~= text
        }),
{
    let mut line = BoundedLine::new(LineSize::Bytes160);
    line.text("\n[EXC] Kernel ");
    line.text(what);
    line.text(": ESR=0x");
    line.hex(esr);
    line.text(" (EC 0x");
    line.hex(esr / 0x400_0000);
    line.text(") ELR=0x");
    line.hex(elr);
    line.text(" FAR=0x");
    line.hex(far);
    line.text("\n");
    line.into_bytes()
}

/// The class of an exception is what its syndrome has from bit 26 up.
pub proof fn law_exception_class(esr: u64)
    ensures
        class_of(esr) * 0x400_0000 <= esr < (class_of(esr) + 1) * 0x400_0000,
{
}

/// What is done with an exception goes by where it came in and, where it is synchronous, by whether
/// its class is 0x15, a call: from the kernel to yield, from a program for a service. Any other
/// synchronous one is a fault of whoever ran; entries 5 and 9 are interrupts; no other is expected.
pub proof fn law_exceptions_are_told_apart(kind: u64, esr: u64)
    ensures
        ({
            let call = 0x15 * 0x400_0000 <= esr < 0x16 * 0x400_0000;
            let a = action_for(kind, esr);
            &&& a is Yield <==> kind == 4 && call
            &&& a is KernelFault <==> kind == 4 && !call
            &&& a is Interrupt <==> kind == 5 || kind == 9
            &&& a is Syscall <==> kind == 8 && call
            &&& a is UserFault <==> kind == 8 && !call
            &&& a is Unexpected <==> kind != 4 && kind != 5 && kind != 8 && kind != 9
        }),
{
}

/// The classes have the numbers of the architecture, and tasks start in the mode that is theirs.
pub proof fn law_exception_numbers()
    ensures
        EC_UNKNOWN == 0x00,
        EC_FP_ACCESS == 0x07,
        EC_ILLEGAL_STATE == 0x0E,
        EC_SVC64 == 0x15,
        EC_SYSREG == 0x18,
        EC_IABT_LOWER == 0x20,
        EC_PC_ALIGN == 0x22,
        EC_DABT_LOWER == 0x24,
        EC_SP_ALIGN == 0x26,
        EC_BRK == 0x3C,
        SPSR_EL1H == 5,
        SPSR_EL0T == 0,
{
}

/// A fault is named by its class; an access to data that has no permission (status 0x0C to 0x0F) or
/// no translation (0x04 to 0x07), and a fetch without permission, are told apart from others.
pub proof fn law_fault_names(esr: u64)
    ensures
        ({
            let ec = esr / 0x400_0000;
            let status = esr % 64;
            let denied = 0x0C <= status <= 0x0F;
            let missing = 0x04 <= status <= 0x07;
            let name = fault_text(esr);
            &&& ec == 0x24 && denied ==> name == "data abort (permission fault)"@
            &&& ec == 0x24 && missing ==> name == "data abort (translation fault)"@
            &&& ec == 0x24 && !denied && !missing ==> name == "data abort"@
            &&& ec == 0x20 && denied ==> name == "instruction abort (permission fault)"@
            &&& ec == 0x20 && !denied ==> name == "instruction abort"@
            &&& ec == 0x18 ==> name == "trapped system instruction"@
            &&& ec == 0x00 ==> name == "undefined instruction"@
            &&& ec == 0x07 ==> name == "FP/SIMD access"@
            &&& ec == 0x22 ==> name == "PC alignment fault"@
            &&& ec == 0x26 ==> name == "SP alignment fault"@
            &&& ec == 0x0E ==> name == "illegal execution state"@
            &&& ec == 0x3C ==> name == "breakpoint"@
            &&& ec == 0x15 ==> name == "synchronous exception"@
        }),
{
}

} // verus!
