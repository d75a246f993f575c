//! Hardware interrupts: the legacy interrupt controllers and the vectors.

use vstd::prelude::*;
use vstd::string::StringSliceAdditionalSpecFns;
use crate::io::{one_op, two_ops, IoOp};
use crate::serial::{hex_digits, sent, write_hex, write_hex_byte, write_str};

verus! {

/// First vector of the first legacy interrupt controller.
pub const PIC_1_OFFSET: u8 = 32;

/// First vector of the second one.
pub const PIC_2_OFFSET: u8 = 40;

pub const PIC1_COMMAND: u16 = 0x20;

pub const PIC1_DATA: u16 = 0x21;

pub const PIC2_COMMAND: u16 = 0xA0;

pub const PIC2_DATA: u16 = 0xA1;

/// Initializes the legacy interrupt controllers with remapped vectors: begin,
/// vectors, cascade, mode, then all interrupts masked but the cascade.
pub fn init_pic() -> (r: Vec<IoOp>)
    ensures
        r@ == seq![
            IoOp::Out8 { port: PIC1_COMMAND, value: 0x11 },
            IoOp::Out8 { port: PIC2_COMMAND, value: 0x11 },
            IoOp::Out8 { port: PIC1_DATA, value: PIC_1_OFFSET },
            IoOp::Out8 { port: PIC2_DATA, value: PIC_2_OFFSET },
            IoOp::Out8 { port: PIC1_DATA, value: 0x04 },
            IoOp::Out8 { port: PIC2_DATA, value: 0x02 },
            IoOp::Out8 { port: PIC1_DATA, value: 0x01 },
            IoOp::Out8 { port: PIC2_DATA, value: 0x01 },
            IoOp::Out8 { port: PIC1_DATA, value: 0xFB },
            IoOp::Out8 { port: PIC2_DATA, value: 0xFF },
        ],
{
    let mut ops: Vec<IoOp> = Vec::new();
    ops.push(IoOp::Out8 { port: PIC1_COMMAND, value: 0x11 });
    ops.push(IoOp::Out8 { port: PIC2_COMMAND, value: 0x11 });
    ops.push(IoOp::Out8 { port: PIC1_DATA, value: PIC_1_OFFSET });
    ops.push(IoOp::Out8 { port: PIC2_DATA, value: PIC_2_OFFSET });
    ops.push(IoOp::Out8 { port: PIC1_DATA, value: 0x04 });
    ops.push(IoOp::Out8 { port: PIC2_DATA, value: 0x02 });
    ops.push(IoOp::Out8 { port: PIC1_DATA, value: 0x01 });
    ops.push(IoOp::Out8 { port: PIC2_DATA, value: 0x01 });
    ops.push(IoOp::Out8 { port: PIC1_DATA, value: 0xFB });
    ops.push(IoOp::Out8 { port: PIC2_DATA, value: 0xFF });
    ops
}

/// The end of interrupt `irq` at the legacy controllers: the second one only
/// for its own interrupts, the first one always.
pub open spec fn eoi_ops(irq: u8) -> Seq<IoOp> {
    if irq >= 8 {
        seq![
            IoOp::Out8 { port: PIC2_COMMAND, value: 0x20 },
            IoOp::Out8 { port: PIC1_COMMAND, value: 0x20 },
        ]
    } else {
        seq![IoOp::Out8 { port: PIC1_COMMAND, value: 0x20 }]
    }
}

/// Signals the end of interrupt `irq` to the legacy controllers.
pub fn eoi(irq: u8) -> (r: Vec<IoOp>)
    ensures
        r@ == eoi_ops(irq),
{
    if irq >= 8 {
        two_ops(
            IoOp::Out8 { port: PIC2_COMMAND, value: 0x20 },
            IoOp::Out8 { port: PIC1_COMMAND, value: 0x20 },
        )
    } else {
        one_op(IoOp::Out8 { port: PIC1_COMMAND, value: 0x20 })
    }
}

/// Fully masks the legacy controllers, once the APIC takes over.
pub fn mask_pic() -> (r: Vec<IoOp>)
    ensures
        r@ == seq![
            IoOp::Out8 { port: PIC1_DATA, value: 0xFF },
            IoOp::Out8 { port: PIC2_DATA, value: 0xFF },
        ],
{
    two_ops(
        IoOp::Out8 { port: PIC1_DATA, value: 0xFF },
        IoOp::Out8 { port: PIC2_DATA, value: 0xFF },
    )
}

/// Signals the end of a hardware interrupt: at the Local APIC, whose
/// registers lie at `lapic`, in APIC mode, else at the legacy controllers.
pub fn irq_eoi(lapic: Option<u64>, irq: u8) -> (r: Vec<IoOp>)
    requires
        lapic is Some ==> lapic->0 <= u64::MAX - 0xFFF,
    ensures
        r@ == match lapic {
            Some(base) => seq![IoOp::Write32 { addr: (base + 0x0B0) as u64, value: 0 }],
            None => eoi_ops(irq),
        },
{
    match lapic {
        Some(base) => one_op(IoOp::Write32 { addr: base + 0x0B0, value: 0 }),
        None => eoi(irq),
    }
}

/// Hardware interrupts.
#[derive(Debug, Clone, Copy, PartialEq, Eq, Structural)]
pub enum InterruptIndex {
    Timer,
    Keyboard,
    Cascade,
    Com2,
    Com1,
    Lpt2,
    Floppy,
    Lpt1,
    Rtc,
    Free1,
    Free2,
    Free3,
    Mouse,
    CoPro,
    PrimaryAta,
    SecondaryAta,
}

impl InterruptIndex {
    /// The interrupt line.
    pub open spec fn line(self) -> u8 {
        match self {
            InterruptIndex::Timer => 0,
            InterruptIndex::Keyboard => 1,
            InterruptIndex::Cascade => 2,
            InterruptIndex::Com2 => 3,
            InterruptIndex::Com1 => 4,
            InterruptIndex::Lpt2 => 5,
            InterruptIndex::Floppy => 6,
            InterruptIndex::Lpt1 => 7,
            InterruptIndex::Rtc => 8,
            InterruptIndex::Free1 => 9,
            InterruptIndex::Free2 => 10,
            InterruptIndex::Free3 => 11,
            InterruptIndex::Mouse => 12,
            InterruptIndex::CoPro => 13,
            InterruptIndex::PrimaryAta => 14,
            InterruptIndex::SecondaryAta => 15,
        }
    }

    /// The vector: the lines of both controllers follow each other.
    pub fn as_u8(self) -> (r: u8)
        ensures
            r == PIC_1_OFFSET + self.line(),
    {
        match self {
            InterruptIndex::Timer => PIC_1_OFFSET,
            InterruptIndex::Keyboard => PIC_1_OFFSET + 1,
            InterruptIndex::Cascade => PIC_1_OFFSET + 2,
            InterruptIndex::Com2 => PIC_1_OFFSET + 3,
            InterruptIndex::Com1 => PIC_1_OFFSET + 4,
            InterruptIndex::Lpt2 => PIC_1_OFFSET + 5,
            InterruptIndex::Floppy => PIC_1_OFFSET + 6,
            InterruptIndex::Lpt1 => PIC_1_OFFSET + 7,
            InterruptIndex::Rtc => PIC_2_OFFSET,
            InterruptIndex::Free1 => PIC_2_OFFSET + 1,
            InterruptIndex::Free2 => PIC_2_OFFSET + 2,
            InterruptIndex::Free3 => PIC_2_OFFSET + 3,
            InterruptIndex::Mouse => PIC_2_OFFSET + 4,
            InterruptIndex::CoPro => PIC_2_OFFSET + 5,
            InterruptIndex::PrimaryAta => PIC_2_OFFSET + 6,
            InterruptIndex::SecondaryAta => PIC_2_OFFSET + 7,
        }
    }

    /// The vector.
    pub fn as_usize(self) -> (r: usize)
        ensures
            r == PIC_1_OFFSET + self.line(),
    {
        self.as_u8() as usize
    }
}

/// The accesses with which the keyboard interrupt takes a scancode, which is
/// read last: the controller has one.
pub fn keyboard_handler() -> (r: Vec<IoOp>)
    ensures
        r@ == seq![IoOp::WaitSet8 { port: 0x64, mask: 1 }, IoOp::In8 { port: 0x60 }],
{
    two_ops(IoOp::WaitSet8 { port: 0x64, mask: 1 }, IoOp::In8 { port: 0x60 })
}

/// What the kernel does on an exception of the CPU.
#[derive(Debug, Clone, Copy, PartialEq, Eq, Structural)]
pub enum ExceptionAction {
    /// Say so, and go on.
    Note,
    /// Say where the breakpoint is, and go on.
    Breakpoint,
    /// End the task that made it, and go on.
    Kill,
    /// Stop the kernel.
    Stop,
}

/// The code segment is one of user mode.
pub open spec fn is_user(cs: u64) -> bool {
    cs % 4 == 3
}

/// Exceptions that user code raises by what it does.
pub open spec fn kills_user(vector: u8) -> bool {
    vector == 0 || vector == 6 || vector == 12 || vector == 13 || vector == 14
}

/// What is done on an exception with this vector.
pub open spec fn action_on(vector: u8, cs: u64) -> ExceptionAction {
    if vector == 2 || vector == 7 {
        ExceptionAction::Note
    } else if vector == 3 {
        ExceptionAction::Breakpoint
    } else if is_user(cs) && kills_user(vector) {
        ExceptionAction::Kill
    } else {
        ExceptionAction::Stop
    }
}

/// What is said of an exception that user code is ended for.
pub open spec fn kill_text(vector: u8, code: u64) -> Seq<char> {
    if vector == 0 {
        "#DE divide error"@
    } else if vector == 6 {
        "#UD invalid opcode"@
    } else if vector == 12 {
        "#SS stack segment fault"@
    } else if vector == 13 {
        "#GP general protection fault"@
    } else {
        if code % 2 == 1 {
            "#PF protection violation"@
        } else {
            "#PF not-present page"@
        }
    }
}

/// What is said of an exception that stops the kernel.
pub open spec fn stop_text(vector: u8) -> Seq<char> {
    if vector == 0 {
        "DIVIDE ERROR"@
    } else if vector == 1 {
        "DEBUG"@
    } else if vector == 4 {
        "OVERFLOW"@
    } else if vector == 5 {
        "BOUND RANGE EXCEEDED"@
    } else if vector == 6 {
        "INVALID OPCODE"@
    } else if vector == 8 {
        "DOUBLE FAULT"@
    } else if vector == 10 {
        "INVALID TSS"@
    } else if vector == 11 {
        "SEGMENT NOT PRESENT"@
    } else if vector == 12 {
        "STACK SEGMENT FAULT"@
    } else if vector == 13 {
        "GENERAL PROTECTION FAULT"@
    } else if vector == 14 {
        "Unresolved page fault"@
    } else if vector == 16 {
        "x87 FPU ERROR"@
    } else if vector == 17 {
        "ALIGNMENT CHECK"@
    } else if vector == 18 {
        "MACHINE CHECK (hardware error)"@
    } else if vector == 19 {
        "SIMD FPU ERROR"@
    } else if vector == 20 {
        "VIRTUALIZATION EXCEPTION"@
    } else {
        "SECURITY EXCEPTION"@
    }
}

/// What is said of an exception.
pub open spec fn exception_text(vector: u8, code: u64, cs: u64) -> Seq<char> {
    match action_on(vector, cs) {
        ExceptionAction::Note => if vector == 2 {
            "[NMI] Non-maskable interrupt received"@
        } else {
            "[#NM] Device not available \u{2014} FPU task switch needed"@
        },
        ExceptionAction::Breakpoint => "[BREAKPOINT] at "@,
        ExceptionAction::Kill => kill_text(vector, code),
        ExceptionAction::Stop => stop_text(vector),
    }
}

fn stop_name(vector: u8) -> (r: &'static str)
    ensures
        r@ == stop_text(vector),
{
    if vector == 0 {
        "DIVIDE ERROR"
    } else if vector == 1 {
        "DEBUG"
    } else if vector == 4 {
        "OVERFLOW"
    } else if vector == 5 {
        "BOUND RANGE EXCEEDED"
    } else if vector == 6 {
        "INVALID OPCODE"
    } else if vector == 8 {
        "DOUBLE FAULT"
    } else if vector == 10 {
        "INVALID TSS"
    } else if vector == 11 {
        "SEGMENT NOT PRESENT"
    } else if vector == 12 {
        "STACK SEGMENT FAULT"
    } else if vector == 13 {
        "GENERAL PROTECTION FAULT"
    } else if vector == 14 {
        "Unresolved page fault"
    } else if vector == 16 {
        "x87 FPU ERROR"
    } else if vector == 17 {
        "ALIGNMENT CHECK"
    } else if vector == 18 {
        "MACHINE CHECK (hardware error)"
    } else if vector == 19 {
        "SIMD FPU ERROR"
    } else if vector == 20 {
        "VIRTUALIZATION EXCEPTION"
    } else {
        "SECURITY EXCEPTION"
    }
}

fn kill_name(vector: u8, code: u64) -> (r: &'static str)
    ensures
        r@ == kill_text(vector, code),
{
    if vector == 0 {
        "#DE divide error"
    } else if vector == 6 {
        "#UD invalid opcode"
    } else if vector == 12 {
        "#SS stack segment fault"
    } else if vector == 13 {
        "#GP general protection fault"
    } else {
        if code % 2 == 1 {
            "#PF protection violation"
        } else {
            "#PF not-present page"
        }
    }
}

/// What is done on an exception of the CPU, and what is said of it: `code` is
/// its error code, `cs` the code segment that it came from.
pub fn exception(vector: u8, code: u64, cs: u64) -> (r: (ExceptionAction, &'static str))
    ensures
        r.0 == action_on(vector, cs),
        r.1@ == exception_text(vector, code, cs),
{
    if vector == 2 {
        (ExceptionAction::Note, "[NMI] Non-maskable interrupt received")
    } else if vector == 7 {
        (ExceptionAction::Note, "[#NM] Device not available \u{2014} FPU task switch needed")
    } else if vector == 3 {
        (ExceptionAction::Breakpoint, "[BREAKPOINT] at ")
    } else if cs % 4 == 3 && (vector == 0 || vector == 6 || vector == 12 || vector == 13 || vector == 14) {
        (ExceptionAction::Kill, kill_name(vector, code))
    } else {
        (ExceptionAction::Stop, stop_name(vector))
    }
}

/// A divide error, an invalid opcode, a stack segment fault, a general
/// protection fault or a page fault in user code ends the task and spares the
/// kernel; no fault of the kernel ends a task.
pub proof fn law_user_faults_spare_the_kernel(vector: u8, cs: u64)
    ensures
        is_user(cs) && kills_user(vector) ==> action_on(vector, cs) is Kill,
        !is_user(cs) ==> !(action_on(vector, cs) is Kill),
{
}

/// What the console says at a breakpoint.
pub fn breakpoint_handler(out: &mut Vec<u8>, rip: u64)
    ensures
        final(out)@ == old(out)@ + sent("[BREAKPOINT] at ".spec_bytes()) + hex_digits(rip as int, 16)
            + seq![10u8],
{
    write_str(out, "[BREAKPOINT] at ");
    write_hex(out, rip);
    out.push(10);
}

/// What the console says before a page fault stops the kernel.
pub fn page_fault_handler(out: &mut Vec<u8>, address: u64, code: u64)
    ensures
        final(out)@ == old(out)@ + sent("\n[PAGE FAULT]\n  Address: 0x".spec_bytes()) + hex_digits(
            address as int,
            16,
        ) + sent("\n  Error code:".spec_bytes()) + hex_digits(code as int % 256, 2) + seq![10u8],
{
    write_str(out, "\n[PAGE FAULT]\n  Address: 0x");
    write_hex(out, address);
    write_str(out, "\n  Error code:");
    write_hex_byte(out, (code % 256) as u8);
    out.push(10);
}

/// The end of an interrupt is told to the first controller, and for the lines
/// of the second to that one before.
pub proof fn law_end_of_interrupt(irq: u8)
    ensures
        irq < 8 ==> eoi_ops(irq) == seq![IoOp::Out8 { port: 0x20, value: 0x20 }],
        irq >= 8 ==> eoi_ops(irq) == seq![
            IoOp::Out8 { port: 0xA0, value: 0x20 },
            IoOp::Out8 { port: 0x20, value: 0x20 },
        ],
        PIC_1_OFFSET == 32 && PIC_2_OFFSET == 40,
        PIC1_DATA == 0x21 && PIC2_DATA == 0xA1,
{
}

/// What the processor does on an exception: interrupts that cannot be masked
/// and a missing FPU are noted, a breakpoint is told, a fault of user code
/// that can be laid to it ends its task, and everything else stops.
pub proof fn law_exceptions(vector: u8, cs: u64)
    ensures
        action_on(2, cs) is Note,
        action_on(7, cs) is Note,
        action_on(3, cs) is Breakpoint,
        cs % 4 == 3 && (vector == 0 || vector == 6 || vector == 12 || vector == 13 || vector == 14) <==> action_on(
            vector,
            cs,
        ) is Kill,
        vector != 2 && vector != 3 && vector != 7 && (cs % 4 != 3 || (vector != 0 && vector != 6 && vector
            != 12 && vector != 13 && vector != 14)) <==> action_on(vector, cs) is Stop,
{
}

/// The lines of the controllers, each its own.
pub proof fn law_interrupt_lines(a: InterruptIndex, b: InterruptIndex)
    ensures
        a.line() < 16,
        a.line() == b.line() ==> a == b,
        InterruptIndex::Timer.line() == 0,
        InterruptIndex::Keyboard.line() == 1,
        InterruptIndex::Cascade.line() == 2,
        InterruptIndex::Com2.line() == 3,
        InterruptIndex::Com1.line() == 4,
        InterruptIndex::Lpt2.line() == 5,
        InterruptIndex::Floppy.line() == 6,
        InterruptIndex::Lpt1.line() == 7,
        InterruptIndex::Rtc.line() == 8,
        InterruptIndex::Mouse.line() == 12,
        InterruptIndex::CoPro.line() == 13,
        InterruptIndex::PrimaryAta.line() == 14,
        InterruptIndex::SecondaryAta.line() == 15,
{
}

/// A page fault is told apart by bit 0 of its code: whether a page was there.
pub proof fn law_page_faults_are_told_apart(code: u64)
    ensures
        code % 2 == 1 ==> kill_text(14, code) == "#PF protection violation"@,
        code % 2 == 0 ==> kill_text(14, code) == "#PF not-present page"@,
        kill_text(0, code) == "#DE divide error"@,
        kill_text(6, code) == "#UD invalid opcode"@,
        kill_text(12, code) == "#SS stack segment fault"@,
        kill_text(13, code) == "#GP general protection fault"@,
{
}

/// An exception that stops the kernel is called by its own name.
pub proof fn law_stop_names(vector: u8)
    ensures
        stop_text(0) == "DIVIDE ERROR"@,
        stop_text(1) == "DEBUG"@,
        stop_text(4) == "OVERFLOW"@,
        stop_text(5) == "BOUND RANGE EXCEEDED"@,
        stop_text(6) == "INVALID OPCODE"@,
        stop_text(8) == "DOUBLE FAULT"@,
        stop_text(10) == "INVALID TSS"@,
        stop_text(11) == "SEGMENT NOT PRESENT"@,
        stop_text(12) == "STACK SEGMENT FAULT"@,
        stop_text(13) == "GENERAL PROTECTION FAULT"@,
        stop_text(14) == "Unresolved page fault"@,
        stop_text(16) == "x87 FPU ERROR"@,
        stop_text(17) == "ALIGNMENT CHECK"@,
        stop_text(18) == "MACHINE CHECK (hardware error)"@,
        stop_text(19) == "SIMD FPU ERROR"@,
        stop_text(20) == "VIRTUALIZATION EXCEPTION"@,
        vector > 20 ==> stop_text(vector) == "SECURITY EXCEPTION"@,
{
}

/// What is said of an exception goes with what is done about it.
pub proof fn law_what_is_said(vector: u8, code: u64, cs: u64)
    ensures
        action_on(vector, cs) is Stop ==> exception_text(vector, code, cs) == stop_text(vector),
        action_on(vector, cs) is Kill ==> exception_text(vector, code, cs) == kill_text(vector, code),
        action_on(vector, cs) is Breakpoint ==> exception_text(vector, code, cs)
            == "[BREAKPOINT] at "@,
        action_on(vector, cs) is Note && vector == 2 ==> exception_text(vector, code, cs)
            == "[NMI] Non-maskable interrupt received"@,
{
}

} // verus!
