//! The console: a PL011 UART.
//!
//! Sending is polled; received characters come by interrupt and go to the
//! queue of console input.

use vstd::prelude::*;
use crate::io::{two_ops, IoOp};

verus! {

pub const DR: u64 = 0x00;

pub const FR: u64 = 0x18;

pub const LCR_H: u64 = 0x2C;

pub const CR: u64 = 0x30;

pub const IMSC: u64 = 0x38;

pub const ICR: u64 = 0x44;

pub const FR_BUSY: u32 = 0x08;

/// The receive queue is empty.
pub const FR_RXFE: u32 = 0x10;

/// The send queue is full.
pub const FR_TXFF: u32 = 0x20;

/// The receive interrupt and the receive timeout.
pub const INT_RX_RT: u32 = 0x50;

pub const LCR_H_FEN: u32 = 0x10;

pub const LCR_H_WLEN8: u32 = 0x60;

/// Enabled, sending, receiving.
pub const CR_ON: u32 = 0x301;

/// Name for the boot log.
pub const NAME: &'static str = "PL011 UART";

/// A UART at an address.
#[derive(Debug, Clone, Copy, PartialEq, Eq, Structural)]
pub struct Pl011 {
    pub base: u64,
}

impl Pl011 {
    /// All registers have addresses.
    pub open spec fn wf(self) -> bool {
        self.base <= u64::MAX - 0x1000
    }

    /// The UART at the address where it is if nothing else is said.
    pub fn new() -> (r: Self)
        ensures
            r.base == 0x0900_0000,
    {
        Pl011 { base: 0x0900_0000 }
    }
}

/// Uses the UART at `base`.
pub fn set_base(u: &mut Pl011, base: u64)
    ensures
        final(u).base == base,
{
    u.base = base;
}

/// Begins the set-up: the line control may only change while the UART is
/// disabled and idle. What its control register held before, and what its
/// line control register holds then, go to `init_line`.
pub fn init(u: &Pl011) -> (r: Vec<IoOp>)
    requires
        u.wf(),
    ensures
        r@ == seq![
            IoOp::Write32 { addr: (u.base + CR) as u64, value: 0 },
            IoOp::WaitClear32 { addr: (u.base + FR) as u64, mask: FR_BUSY },
        ],
{
    two_ops(
        IoOp::Write32 { addr: u.base + CR, value: 0 },
        IoOp::WaitClear32 { addr: u.base + FR, mask: FR_BUSY },
    )
}

/// The line control with the queues on, and eight bits to a character where
/// no length was chosen; the speed is left as it was.
pub open spec fn line_control(lcr: u32) -> u32 {
    if lcr & LCR_H_WLEN8 == 0 {
        lcr | LCR_H_FEN | LCR_H_WLEN8
    } else {
        lcr | LCR_H_FEN
    }
}

/// Ends the set-up: the queues on, and the UART enabled.
pub fn init_line(u: &Pl011, cr: u32, lcr: u32) -> (r: Vec<IoOp>)
    requires
        u.wf(),
    ensures
        r@ == seq![
            IoOp::Write32 { addr: (u.base + LCR_H) as u64, value: line_control(lcr) },
            IoOp::Write32 { addr: (u.base + CR) as u64, value: cr | CR_ON },
        ],
{
    let line: u32 = if lcr & LCR_H_WLEN8 == 0 {
        lcr | LCR_H_FEN | LCR_H_WLEN8
    } else {
        lcr | LCR_H_FEN
    };
    two_ops(
        IoOp::Write32 { addr: u.base + LCR_H, value: line },
        IoOp::Write32 { addr: u.base + CR, value: cr | CR_ON },
    )
}

/// Sends one byte.
pub fn putc(u: &Pl011, byte: u8) -> (r: Vec<IoOp>)
    requires
        u.wf(),
    ensures
        r@ == seq![
            IoOp::WaitClear32 { addr: (u.base + FR) as u64, mask: FR_TXFF },
            IoOp::Write32 { addr: (u.base + DR) as u64, value: byte as u32 },
        ],
{
    two_ops(
        IoOp::WaitClear32 { addr: u.base + FR, mask: FR_TXFF },
        IoOp::Write32 { addr: u.base + DR, value: byte as u32 },
    )
}

/// Enables the receive interrupts.
pub fn enable_rx_irq(u: &Pl011) -> (r: Vec<IoOp>)
    requires
        u.wf(),
    ensures
        r@ == seq![
            IoOp::Write32 { addr: (u.base + ICR) as u64, value: 0x7FF },
            IoOp::Write32 { addr: (u.base + IMSC) as u64, value: INT_RX_RT },
        ],
{
    two_ops(
        IoOp::Write32 { addr: u.base + ICR, value: 0x7FF },
        IoOp::Write32 { addr: u.base + IMSC, value: INT_RX_RT },
    )
}

/// The character that a received word is: its low byte, with a carriage
/// return for a new line.
pub open spec fn received(word: u32) -> u8 {
    let c = (word % 256) as u8;
    if c == 13 {
        10
    } else {
        c
    }
}

/// The characters that the words in the receive queue are.
pub open spec fn received_all(fifo: Seq<u32>) -> Seq<u8> {
    fifo.map_values(|w: u32| received(w))
}

/// How far the receive interrupt has come.
#[derive(Debug, Clone, Copy, PartialEq, Eq, Structural)]
pub enum RxPhase {
    /// Reading whether there is a word.
    Flags,
    /// Reading the word.
    Data,
    /// Clearing the interrupt.
    Clear,
    /// Nothing is left to do.
    Ended,
}

/// The receive interrupt: the receive queue is emptied.
pub struct RxDrain {
    pub base: u64,
    pub phase: RxPhase,
}

impl RxDrain {
    pub open spec fn wf(self) -> bool {
        self.base <= u64::MAX - 0x1000
    }

    /// The characters that are still to come where `fifo` is in the queue.
    pub open spec fn outcome(self, fifo: Seq<u32>) -> Seq<u8> {
        match self.phase {
            RxPhase::Flags => received_all(fifo),
            RxPhase::Data => received_all(fifo),
            _ => Seq::empty(),
        }
    }

    /// The access that is needed next; `None` at the end.
    pub fn next_op(&self) -> (r: Option<IoOp>)
        requires
            self.wf(),
        ensures
            r == match self.phase {
                RxPhase::Flags => Some(IoOp::Read32 { addr: (self.base + FR) as u64 }),
                RxPhase::Data => Some(IoOp::Read32 { addr: (self.base + DR) as u64 }),
                RxPhase::Clear => Some(
                    IoOp::Write32 { addr: (self.base + ICR) as u64, value: INT_RX_RT },
                ),
                RxPhase::Ended => None,
            },
    {
        match self.phase {
            RxPhase::Flags => Some(IoOp::Read32 { addr: self.base + FR }),
            RxPhase::Data => Some(IoOp::Read32 { addr: self.base + DR }),
            RxPhase::Clear => Some(IoOp::Write32 { addr: self.base + ICR, value: INT_RX_RT }),
            RxPhase::Ended => None,
        }
    }

    /// `value` is what the access reads where `fifo` is in the queue.
    pub open spec fn answered(self, fifo: Seq<u32>, value: u32) -> bool {
        match self.phase {
            RxPhase::Flags => (value & FR_RXFE == 0) == (fifo.len() > 0),
            RxPhase::Data => fifo.len() > 0 && value == fifo[0],
            _ => true,
        }
    }

    /// What is in the queue after the access.
    pub open spec fn after(self, fifo: Seq<u32>) -> Seq<u32> {
        if self.phase is Data && fifo.len() > 0 {
            fifo.drop_first()
        } else {
            fifo
        }
    }

    /// Takes what was read, and gives the character that came with it.
    pub fn feed(&mut self, value: u32) -> (r: Option<u8>)
        requires
            old(self).wf(),
        ensures
            final(self).wf(),
            final(self).base == old(self).base,
            r == if old(self).phase is Data { Some(received(value)) } else { None },
            final(self).phase == match old(self).phase {
                RxPhase::Flags => if value & FR_RXFE == 0 {
                    RxPhase::Data
                } else {
                    RxPhase::Clear
                },
                RxPhase::Data => RxPhase::Flags,
                RxPhase::Clear => RxPhase::Ended,
                RxPhase::Ended => RxPhase::Ended,
            },
            forall|fifo: Seq<u32>|
                old(self).answered(fifo, value) ==> (match r {
                    Some(c) => seq![c],
                    None => Seq::empty(),
                }) + #[trigger] final(self).outcome(old(self).after(fifo)) == old(self).outcome(
                    fifo,
                ),
    {
        let ghost before = *self;
        let r: Option<u8> = match self.phase {
            RxPhase::Data => {
                let c: u8 = (value % 256) as u8;
                Some(
                    if c == 13 {
                        10
                    } else {
                        c
                    },
                )
            },
            _ => None,
        };
        self.phase = match self.phase {
            RxPhase::Flags => if value & FR_RXFE == 0 {
                RxPhase::Data
            } else {
                RxPhase::Clear
            },
            RxPhase::Data => RxPhase::Flags,
            RxPhase::Clear => RxPhase::Ended,
            RxPhase::Ended => RxPhase::Ended,
        };
        assert forall|fifo: Seq<u32>| before.answered(fifo, value) implies (match r {
            Some(c) => seq![c],
            None => Seq::empty(),
        }) + #[trigger] self.outcome(before.after(fifo)) == before.outcome(fifo) by {
            assert((match r {
                Some(c) => seq![c],
                None => Seq::empty(),
            }) + self.outcome(before.after(fifo)) =~= before.outcome(fifo));
        }
        r
    }
}

/// Begins the receive interrupt: every word in the receive queue becomes a
/// character of console input, in order, then the interrupt is cleared.
pub fn handle_rx_irq(u: &Pl011) -> (r: RxDrain)
    requires
        u.wf(),
    ensures
        r.wf(),
        r.base == u.base,
        r.phase == RxPhase::Flags,
        forall|fifo: Seq<u32>| #[trigger] r.outcome(fifo) == received_all(fifo),
{
    RxDrain { base: u.base, phase: RxPhase::Flags }
}

/// The registers and bits of the UART.
pub proof fn law_uart_registers()
    ensures
        DR == 0x00,
        FR == 0x18,
        LCR_H == 0x2C,
        CR == 0x30,
        IMSC == 0x38,
        ICR == 0x44,
        FR_BUSY == 0x08,
        FR_RXFE == 0x10,
        FR_TXFF == 0x20,
        INT_RX_RT == 0x50,
        CR_ON == 0x301,
{
}

/// The line's control has its queues switched on and is otherwise kept, but for words of eight bits
/// where no length was set.
pub proof fn law_line_control(lcr: u32)
    ensures
        lcr & 0x60 != 0 ==> line_control(lcr) == lcr | 0x10,
        lcr & 0x60 == 0 ==> line_control(lcr) == lcr | 0x10 | 0x60,
{
}

/// What comes in is the low byte of each word, in order, with a carriage return taken for a new line.
pub proof fn law_what_comes_in(word: u32, fifo: Seq<u32>, i: int)
    ensures
        word % 256 == 13 ==> received(word) == 10,
        word % 256 != 13 ==> received(word) == word % 256,
        received_all(fifo).len() == fifo.len(),
        0 <= i < fifo.len() ==> received_all(fifo)[i] == received(fifo[i]),
{
}

} // verus!
