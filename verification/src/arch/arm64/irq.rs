//! Front end of the interrupt controllers: the GIC on most machines, the
//! BCM2836 local controller on the Raspberry Pi 2 and 3.

use vstd::prelude::*;
use vstd::string::StringSliceAdditionalSpecFns;
use super::bcm2836::{self, Bcm2836};
use super::fdt::MachineInfo;
use super::gic::{self, GicConfig};
use super::timer::megahertz;
use crate::io::IoOp;
use crate::line::{blank, BoundedLine, LineSize};
use crate::serial::{decimal, hex};

verus! {

/// Which controller a machine has.
#[derive(Debug, Clone, Copy, PartialEq, Eq, Structural)]
pub enum IrqChip {
    /// A GIC of this version.
    Gic(u8),
    /// The Raspberry Pi's, with the addresses of its two parts.
    Bcm2836 { local_intc: u64, armctrl: u64 },
}

/// The controller in use.
#[derive(Debug, Clone, Copy, PartialEq, Eq, Structural)]
pub enum Irq {
    Gic(GicConfig),
    Bcm(Bcm2836),
}

/// The controller that is set up for a machine.
pub open spec fn controller(info: MachineInfo, chip: IrqChip) -> Irq {
    match chip {
        IrqChip::Gic(version) => Irq::Gic(
            GicConfig {
                version,
                gicd: info.gicd,
                gicc_or_gicr: if version == 3 {
                    info.gicr
                } else {
                    info.gicc
                },
                gicr_size: info.gicr_size,
                timer_irq: info.timer_irq,
                uart_irq: info.uart_irq,
            },
        ),
        IrqChip::Bcm2836 { local_intc, armctrl } => Irq::Bcm(
            Bcm2836 { local: local_intc, armctrl, uart_irq: info.uart_irq },
        ),
    }
}

impl Irq {
    pub open spec fn wf(self) -> bool {
        match self {
            Irq::Gic(c) => c.wf(),
            Irq::Bcm(b) => b.wf(),
        }
    }
}

/// The controller of a machine, and its set-up on the boot CPU, whose ID
/// register holds `mpidr` and which reads `mask` from the first target
/// register of a GIC of version 2. With a GIC, `init_cpu` follows.
pub fn init(info: &MachineInfo, chip: IrqChip, mpidr: u64, mask: u32) -> (r: (Irq, Vec<IoOp>))
    requires
        controller(*info, chip).wf(),
    ensures
        r.0 == controller(*info, chip),
        match r.0 {
            Irq::Gic(c) => r.1@ == gic::distributor_ops(c, mpidr, mask),
            Irq::Bcm(b) => r.1@ == (if b.routed() {
                seq![
                    IoOp::Write32 {
                        addr: (b.armctrl + bcm2836::ENABLE1 + 4 * (b.uart_irq / 32 - 1)) as u64,
                        value: 1u32 << (b.uart_irq % 32),
                    },
                ]
            } else {
                Seq::empty()
            }) + bcm2836::cpu_ops(b, bcm2836::core_of(mpidr)),
        },
{
    match chip {
        IrqChip::Gic(version) => {
            let c = GicConfig {
                version,
                gicd: info.gicd,
                gicc_or_gicr: if version == 3 {
                    info.gicr
                } else {
                    info.gicc
                },
                gicr_size: info.gicr_size,
                timer_irq: info.timer_irq,
                uart_irq: info.uart_irq,
            };
            let ops: Vec<IoOp> = gic::init(&c, mpidr, mask);
            (Irq::Gic(c), ops)
        },
        IrqChip::Bcm2836 { local_intc, armctrl } => {
            let b = Bcm2836 { local: local_intc, armctrl, uart_irq: info.uart_irq };
            let ops: Vec<IoOp> = bcm2836::init(&b, mpidr);
            (Irq::Bcm(b), ops)
        },
    }
}

/// What the console says of the controller and the counter, as it fits 200
/// bytes.
pub open spec fn irq_line(info: MachineInfo, chip: IrqChip, frequency: u64) -> Seq<u8> {
    let line = blank(200);
    let named = match chip {
        IrqChip::Gic(version) => (if version == 3 {
            line.put("[IRQ] GICv3: distributor 0x".spec_bytes()).put(hex(info.gicd as nat)).put(
                ", redistributors 0x".spec_bytes(),
            ).put(hex(info.gicr as nat)).put(" (+0x".spec_bytes()).put(
                hex(info.gicr_size as nat),
            ).put(")".spec_bytes())
        } else {
            line.put("[IRQ] GICv2: distributor 0x".spec_bytes()).put(hex(info.gicd as nat)).put(
                ", CPU interface 0x".spec_bytes(),
            ).put(hex(info.gicc as nat))
        }).next_write().put("; timer INTID ".spec_bytes()).put(decimal(info.timer_irq as nat)),
        IrqChip::Bcm2836 { local_intc, armctrl } => line.put(
            "[IRQ] BCM2836 local controller 0x".spec_bytes(),
        ).put(hex(local_intc as nat)).put(", armctrl 0x".spec_bytes()).put(
            hex(armctrl as nat),
        ).put("; UART IRQ ".spec_bytes()).put(decimal(info.uart_irq as nat)),
    };
    named.next_write().put("; counter ".spec_bytes()).put(
        decimal((frequency / 1_000_000) as nat),
    ).put(" MHz\n".spec_bytes()).bytes
}

/// What the console says of the controller and of a counter of `frequency`.
pub fn init_line(info: &MachineInfo, chip: IrqChip, frequency: u64) -> (r: Vec<u8>)
    ensures
        r@ == irq_line(*info, chip, frequency),
{
    let mut line = BoundedLine::new(LineSize::Bytes200);
    match chip {
        IrqChip::Gic(version) => {
            if version == 3 {
                line.text("[IRQ] GICv3: distributor 0x");
                line.hex(info.gicd);
                line.text(", redistributors 0x");
                line.hex(info.gicr);
                line.text(" (+0x");
                line.hex(info.gicr_size);
                line.text(")");
            } else {
                line.text("[IRQ] GICv2: distributor 0x");
                line.hex(info.gicd);
                line.text(", CPU interface 0x");
                line.hex(info.gicc);
            }
            line.next_write();
            line.text("; timer INTID ");
            line.dec(info.timer_irq as u64);
        },
        IrqChip::Bcm2836 { local_intc, armctrl } => {
            line.text("[IRQ] BCM2836 local controller 0x");
            line.hex(local_intc);
            line.text(", armctrl 0x");
            line.hex(armctrl);
            line.text("; UART IRQ ");
            line.dec(info.uart_irq as u64);
        },
    }
    line.next_write();
    line.text("; counter ");
    line.dec(megahertz(frequency));
    line.text(" MHz\n");
    line.into_bytes()
}

/// Sets up the interface of the calling CPU, whose redistributor is at `rd`
/// with a GIC of version 3.
pub fn init_cpu(irq: &Irq, mpidr: u64, rd: u64) -> (r: Vec<IoOp>)
    requires
        irq.wf(),
        rd <= u64::MAX - 0x2_0000,
    ensures
        r@ == match *irq {
            Irq::Gic(c) => gic::cpu_ops(c, rd),
            Irq::Bcm(b) => bcm2836::cpu_ops(b, bcm2836::core_of(mpidr)),
        },
{
    match irq {
        Irq::Gic(c) => gic::init_cpu(c, rd),
        Irq::Bcm(b) => bcm2836::init_cpu(b, mpidr),
    }
}

/// Where a reschedule interrupt for the calling CPU goes.
pub open spec fn target_id(irq: Irq, mpidr: u64, mask: u32) -> u32 {
    match irq {
        Irq::Gic(c) => gic::target_id(c, mpidr, mask),
        Irq::Bcm(b) => bcm2836::core_of(mpidr) as u32,
    }
}

/// Where a reschedule interrupt for the calling CPU goes.
pub fn cpu_target_id(irq: &Irq, mpidr: u64, mask: u32) -> (r: u32)
    ensures
        r == target_id(*irq, mpidr, mask),
{
    match irq {
        Irq::Gic(c) => gic::cpu_target_id(c, mpidr, mask),
        Irq::Bcm(b) => bcm2836::cpu_target_id(mpidr),
    }
}

/// The accesses that reschedule the CPU with this target.
pub open spec fn resched_ops(irq: Irq, target: u32) -> Seq<IoOp> {
    match irq {
        Irq::Gic(c) => if c.v3() {
            seq![
                IoOp::Barrier,
                IoOp::WriteSys {
                    reg: crate::io::SysReg::IccSgi1r,
                    value: gic::sgi_word(target) as u64,
                },
            ]
        } else {
            seq![
                IoOp::Barrier,
                IoOp::Write32 {
                    addr: (c.gicd + gic::GICD_SGIR) as u64,
                    value: (1u32 << (16 + target) as u32) | gic::RESCHED_SGI,
                },
            ]
        },
        Irq::Bcm(b) => seq![
            IoOp::Barrier,
            IoOp::Write32 { addr: (b.local + bcm2836::MBOX0_SET + 16 * target) as u64, value: 1 },
        ],
    }
}

/// The target is one that a GIC of version 2 can name.
pub open spec fn can_name(irq: Irq, target: u32) -> bool {
    irq is Gic && !irq->Gic_0.v3() ==> target < 16
}

/// Kicks the CPU with this target into its scheduler.
pub fn send_resched(irq: &Irq, target: u32) -> (r: Vec<IoOp>)
    requires
        irq.wf(),
        can_name(*irq, target),
    ensures
        r@ == resched_ops(*irq, target),
{
    match irq {
        Irq::Gic(c) => gic::send_resched(c, target),
        Irq::Bcm(b) => bcm2836::send_resched(b, target),
    }
}

/// The read that an interrupt is handled with first: it acknowledges the
/// interrupt at a GIC, and tells its sources at the other controller.
pub fn handle_irq(irq: &Irq, mpidr: u64) -> (r: IoOp)
    requires
        irq.wf(),
    ensures
        r == match *irq {
            Irq::Gic(c) => if c.v3() {
                IoOp::ReadSys { reg: crate::io::SysReg::IccIar1 }
            } else {
                IoOp::Read32 { addr: (c.gicc_or_gicr + gic::GICC_IAR) as u64 }
            },
            Irq::Bcm(b) => IoOp::Read32 {
                addr: (b.local + bcm2836::IRQ_SOURCE + 4 * bcm2836::core_of(mpidr)) as u64,
            },
        },
{
    match irq {
        Irq::Gic(c) => gic::acknowledge(c),
        Irq::Bcm(b) => bcm2836::read_source(b, mpidr),
    }
}

/// Every CPU's target can be named.
pub proof fn law_targets_can_be_named(irq: Irq, mpidr: u64, mask: u32)
    ensures
        can_name(irq, target_id(irq, mpidr, mask)),
{
    gic::lemma_lowest_bit(mask, 0);
}

/// The controller is the one that was found, at the addresses and with the interrupts that the machine
/// has: version 3 with its redistributors, any other with its processor interface.
pub proof fn law_controller_in_use(info: MachineInfo, version: u8, local_intc: u64, armctrl: u64)
    ensures
        controller(info, IrqChip::Gic(version)) matches Irq::Gic(c) && {
            &&& c.version == version
            &&& c.gicd == info.gicd
            &&& version == 3 ==> c.gicc_or_gicr == info.gicr
            &&& version != 3 ==> c.gicc_or_gicr == info.gicc
            &&& c.gicr_size == info.gicr_size
            &&& c.timer_irq == info.timer_irq
            &&& c.uart_irq == info.uart_irq
        },
        controller(info, IrqChip::Bcm2836 { local_intc, armctrl }) matches Irq::Bcm(b) && {
            &&& b.local == local_intc
            &&& b.armctrl == armctrl
            &&& b.uart_irq == info.uart_irq
        },
{
}

/// A processor is told to switch in the way of the controller, after a barrier: by one word to a
/// system register, to the distributor's register at 0xF00, or to the processor's own mailbox.
pub proof fn law_telling_a_processor(c: GicConfig, b: Bcm2836, target: u32)
    requires
        c.wf(),
        b.wf(),
    ensures
        resched_ops(Irq::Gic(c), target).len() == 2,
        resched_ops(Irq::Bcm(b), target).len() == 2,
        resched_ops(Irq::Gic(c), target)[0] is Barrier,
        resched_ops(Irq::Bcm(b), target)[0] is Barrier,
        c.version == 3 ==> resched_ops(Irq::Gic(c), target)[1] == (IoOp::WriteSys {
            reg: crate::io::SysReg::IccSgi1r,
            value: gic::sgi_word(target) as u64,
        }),
        c.version != 3 ==> resched_ops(Irq::Gic(c), target)[1] == (IoOp::Write32 {
            addr: (c.gicd + 0xF00) as u64,
            value: (1u32 << (16 + target) as u32) | 1,
        }),
        resched_ops(Irq::Bcm(b), target)[1] == (IoOp::Write32 {
            addr: (b.local + 0x80 + 16 * target) as u64,
            value: 1,
        }),
{
}

/// Each controller names a processor in its own way.
pub proof fn law_naming_a_processor(c: GicConfig, b: Bcm2836, mpidr: u64, mask: u32)
    ensures
        target_id(Irq::Gic(c), mpidr, mask) == gic::target_id(c, mpidr, mask),
        target_id(Irq::Bcm(b), mpidr, mask) == mpidr % 256,
{
}

} // verus!
