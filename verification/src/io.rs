//! Device register traffic as plain values.
//!
//! A driver function of this library gives back the accesses to make, in
//! order; the application performs them one after the other.

use vstd::prelude::*;

verus! {

/// One access to an I/O port or a device register.
#[allow(inconsistent_fields)]
#[derive(Debug, Clone, Copy, PartialEq, Eq, Structural)]
pub enum IoOp {
    /// Write a byte to a port.
    Out8 { port: u16, value: u8 },
    /// Write a 16-bit word to a port.
    Out16 { port: u16, value: u16 },
    /// Write a 32-bit word to a port.
    Out32 { port: u16, value: u32 },
    /// Read a byte from a port.
    In8 { port: u16 },
    /// Read a 16-bit word from a port.
    In16 { port: u16 },
    /// Read a 32-bit word from a port.
    In32 { port: u16 },
    /// Read a byte from a port, clear and set bits in it, and write it back.
    OutModify8 { port: u16, clear: u8, set: u8 },
    /// Read a byte from a port until some bit of `mask` is set in it.
    WaitSet8 { port: u16, mask: u8 },
    /// Write a byte to a register.
    Write8 { addr: u64, value: u8 },
    /// Write a 16-bit register.
    Write16 { addr: u64, value: u16 },
    /// Write a 32-bit register.
    Write32 { addr: u64, value: u32 },
    /// Write a 64-bit register.
    Write64 { addr: u64, value: u64 },
    /// Read a byte from a register.
    Read8 { addr: u64 },
    /// Read a 16-bit register.
    Read16 { addr: u64 },
    /// Read a 32-bit register.
    Read32 { addr: u64 },
    /// Read a 64-bit register.
    Read64 { addr: u64 },
    /// Read a 32-bit register, clear and set bits in it, and write it back.
    Modify32 { addr: u64, clear: u32, set: u32 },
    /// Read a 32-bit register until all bits of `mask` are clear in it.
    WaitClear32 { addr: u64, mask: u32 },
    /// Write an interrupt-controller system register of the CPU.
    WriteSys { reg: SysReg, value: u64 },
    /// Read an interrupt-controller system register of the CPU.
    ReadSys { reg: SysReg },
    /// Set bits in a system register of the CPU.
    SetSys { reg: SysReg, bits: u64 },
    /// Order everything before against everything after.
    Barrier,
}

/// The accesses of `a`, then those of `b`.
pub fn join_ops(a: Vec<IoOp>, b: Vec<IoOp>) -> (r: Vec<IoOp>)
    ensures
        r@ == a@ + b@,
{
    let mut out: Vec<IoOp> = a;
    let mut rest: Vec<IoOp> = b;
    out.append(&mut rest);
    out
}

/// One access.
pub fn one_op(op: IoOp) -> (r: Vec<IoOp>)
    ensures
        r@ == seq![op],
{
    let mut out: Vec<IoOp> = Vec::new();
    out.push(op);
    out
}

/// Two accesses.
pub fn two_ops(a: IoOp, b: IoOp) -> (r: Vec<IoOp>)
    ensures
        r@ == seq![a, b],
{
    let mut out: Vec<IoOp> = Vec::new();
    out.push(a);
    out.push(b);
    out
}

/// System registers that the library has values for.
#[derive(Debug, Clone, Copy, PartialEq, Eq, Structural)]
pub enum SysReg {
    /// Enables the system-register interface of the interrupt controller.
    IccSre,
    /// Interrupt priority mask.
    IccPmr,
    /// Binary point of group 1.
    IccBpr1,
    /// Enables group 1 interrupts.
    IccIgrpen1,
    /// Acknowledges a group 1 interrupt.
    IccIar1,
    /// Signals the end of a group 1 interrupt.
    IccEoir1,
    /// Sends a group 1 software interrupt.
    IccSgi1r,
}

} // verus!
