//! Bringing up the secondary CPUs through PSCI: the firmware starts a CPU at
//! an entry with the address of its boot record; the CPU loads the boot CPU's
//! MMU registers from there and joins the scheduler.

use vstd::prelude::*;
use vstd::string::StringSliceAdditionalSpecFns;
use super::fdt::{MachineInfo, PsciConduit};
use super::mmu::MmuRegs;
use crate::line::{blank, BoundedLine, LineSize};
use crate::serial::{decimal, hex};

verus! {

/// PSCI function that starts a CPU.
pub const PSCI_CPU_ON: u64 = 0xC400_0003;

/// Stack size of each secondary CPU.
pub const AP_STACK_SIZE: u64 = 0x1_0000;

/// What a secondary CPU reads first, with its MMU off; the order of the
/// fields matters.
#[derive(Debug, Clone, Copy, PartialEq, Eq, Structural)]
pub struct ApBoot {
    pub stack_top: u64,
    pub cpu: u64,
    pub mair: u64,
    pub tcr: u64,
    pub ttbr0: u64,
    pub sctlr: u64,
}

/// The boot record of CPU `cpu` with its stack at `stack`.
pub fn ap_boot(stack: u64, cpu: u64, regs: &MmuRegs) -> (r: ApBoot)
    requires
        stack + AP_STACK_SIZE <= u64::MAX,
    ensures
        r == (ApBoot {
            stack_top: (stack + AP_STACK_SIZE) as u64,
            cpu,
            mair: regs.mair,
            tcr: regs.tcr,
            ttbr0: regs.ttbr0,
            sctlr: regs.sctlr,
        }),
{
    ApBoot {
        stack_top: stack + AP_STACK_SIZE,
        cpu,
        mair: regs.mair,
        tcr: regs.tcr,
        ttbr0: regs.ttbr0,
        sctlr: regs.sctlr,
    }
}

/// Affinity of the calling CPU, by its ID register.
pub fn mpidr(id_reg: u64) -> (r: u64)
    ensures
        r == (id_reg / 0x1_0000_0000 % 256) * 0x1_0000_0000 + id_reg % 0x100_0000,
{
    (id_reg / 0x1_0000_0000 % 256) * 0x1_0000_0000 + id_reg % 0x100_0000
}

/// How many cache lines hold some of the `len` bytes at `addr`.
pub open spec fn line_count(addr: int, len: int) -> int {
    (addr % 64 + len + 63) / 64
}

/// The cache lines to clean so that a CPU with its caches off reads the `len`
/// bytes at `addr`: all that hold some of them.
pub fn clean_dcache(addr: u64, len: u64) -> (r: Vec<u64>)
    requires
        addr + len + 64 <= u64::MAX,
    ensures
        r@ == Seq::new(
            line_count(addr as int, len as int) as nat,
            |i: int| (addr - addr % 64 + 64 * i) as u64,
        ),
{
    let first: u64 = addr - addr % 64;
    let ghost want = Seq::new(
        line_count(addr as int, len as int) as nat,
        |i: int| (addr - addr % 64 + 64 * i) as u64,
    );
    let mut lines: Vec<u64> = Vec::new();
    let mut line: u64 = first;
    while line < addr + len
        invariant
            addr + len + 64 <= u64::MAX,
            line == addr - addr % 64 + 64 * lines@.len(),
            line < addr + len + 64,
            lines@.len() <= want.len(),
            want == Seq::new(
                line_count(addr as int, len as int) as nat,
                |i: int| (addr - addr % 64 + 64 * i) as u64,
            ),
            lines@ =~= want.take(lines@.len() as int),
        decreases addr + len - line + 64,
    {
        assert(lines@.len() < want.len());
        lines.push(line);
        line += 64;
    }
    assert(lines@.len() == want.len());
    assert(want.take(want.len() as int) =~= want);
    lines
}

/// Every byte of a structure lies in one of the lines that are cleaned for
/// it.
pub proof fn law_cleaned_lines_cover(addr: int, len: int, at: int)
    requires
        0 <= addr <= at < addr + len,
    ensures
        ({
            let i = (at - (addr - addr % 64)) / 64;
            &&& 0 <= i < line_count(addr, len)
            &&& addr - addr % 64 + 64 * i <= at < addr - addr % 64 + 64 * (i + 1)
        }),
{
}

/// The CPUs among the first `n` other than `me`, in order.
pub open spec fn others(cpus: Seq<u64>, me: u64, n: int) -> Seq<u64>
    decreases n,
{
    if n <= 0 {
        Seq::empty()
    } else if cpus[n - 1] == me {
        others(cpus, me, n - 1)
    } else {
        others(cpus, me, n - 1).push(cpus[n - 1])
    }
}

/// The CPUs to start, one after the other: every other CPU in the device
/// tree. `None` where there is no PSCI to start them.
pub fn boot_secondaries(info: &MachineInfo, me: u64) -> (r: Option<Vec<u64>>)
    requires
        info.wf(),
    ensures
        match r {
            None => info.psci is Absent,
            Some(targets) => !(info.psci is Absent) && targets@ == others(
                info@.cpus,
                me,
                info@.cpus.len() as int,
            ),
        },
{
    if info.psci == PsciConduit::Absent {
        return None;
    }
    let mut targets: Vec<u64> = Vec::new();
    let mut i: usize = 0;
    while i < info.cpu_count
        invariant
            info.wf(),
            i <= info.cpu_count,
            targets@ == others(info@.cpus, me, i as int),
        decreases info.cpu_count - i,
    {
        assert(info@.cpus[i as int] == info.cpus@[i as int]);
        if info.cpus[i] != me {
            targets.push(info.cpus[i]);
        }
        i += 1;
    }
    Some(targets)
}

/// How far the start of a secondary CPU has come.
#[derive(Debug, Clone, Copy, PartialEq, Eq, Structural)]
pub enum StartPhase {
    /// The firmware is to be called.
    Call,
    /// The CPU has a second to report in, of which `waited` milliseconds are
    /// over.
    Wait { waited: u32 },
    /// The firmware refused.
    Refused,
    /// The CPU is up, or not.
    Ended { online: bool },
}

impl StartPhase {
    /// The phase after the firmware's answer.
    pub open spec fn called(self, answer: i64) -> StartPhase {
        if answer != 0 {
            StartPhase::Refused
        } else {
            StartPhase::Wait { waited: 0 }
        }
    }

    /// The phase after a look whether the CPU has reported in; where it goes
    /// on waiting, a millisecond passes.
    pub open spec fn looked(self, ready: bool) -> StartPhase {
        match self {
            StartPhase::Wait { waited } => if waited >= 1000 {
                StartPhase::Ended { online: false }
            } else if ready {
                StartPhase::Ended { online: true }
            } else {
                StartPhase::Wait { waited: (waited + 1) as u32 }
            },
            p => p,
        }
    }
}

/// Takes the firmware's answer.
pub fn start_called(answer: i64) -> (r: StartPhase)
    ensures
        r == StartPhase::Call.called(answer),
{
    if answer != 0 {
        StartPhase::Refused
    } else {
        StartPhase::Wait { waited: 0 }
    }
}

/// Takes whether the CPU has reported in.
pub fn start_looked(phase: StartPhase, ready: bool) -> (r: StartPhase)
    ensures
        r == phase.looked(ready),
{
    match phase {
        StartPhase::Wait { waited } => if waited >= 1000 {
            StartPhase::Ended { online: false }
        } else if ready {
            StartPhase::Ended { online: true }
        } else {
            StartPhase::Wait { waited: waited + 1 }
        },
        p => p,
    }
}

/// The index for the CPU that is started next: one more than that of the
/// last one that came up.
pub fn next_index(cpu: u64, online: bool) -> (r: u64)
    requires
        cpu < u64::MAX,
    ensures
        r == if online {
            cpu + 1
        } else {
            cpu as int
        },
{
    if online {
        cpu + 1
    } else {
        cpu
    }
}

/// Indices of the CPUs that come up are 1, 2, 3 and so on without a gap,
/// whichever of them are refused or stay away.
pub open spec fn index_after(online: Seq<bool>, n: int) -> int
    decreases n,
{
    if n <= 0 {
        1
    } else if online[n - 1] {
        index_after(online, n - 1) + 1
    } else {
        index_after(online, n - 1)
    }
}

/// No two CPUs that come up get the same index.
pub proof fn law_indices_are_distinct(online: Seq<bool>, a: int, b: int)
    requires
        0 <= a < b < online.len(),
        online[a],
    ensures
        1 <= index_after(online, a) < index_after(online, b) <= b + 1,
    decreases b,
{
    lemma_index_bounds(online, a);
    if b == a + 1 {
        lemma_index_bounds(online, b);
    } else {
        law_indices_are_distinct(online, a, b - 1);
    }
}

proof fn lemma_index_bounds(online: Seq<bool>, n: int)
    requires
        0 <= n <= online.len(),
    ensures
        1 <= index_after(online, n) <= n + 1,
    decreases n,
{
    if n > 0 {
        lemma_index_bounds(online, n - 1);
    }
}

/// What the console says when CPU `cpu` with affinity `id` has come up, as it
/// fits 64 bytes.
pub open spec fn online_text(cpu: u64, id: u64) -> Seq<u8> {
    blank(64).put("[SMP] CPU ".spec_bytes()).put(decimal(cpu as nat)).put(
        " online (MPIDR 0x".spec_bytes(),
    ).put(hex(id as nat)).put("), scheduling\n".spec_bytes()).bytes
}

/// What the console says when CPU `cpu` with affinity `id` has come up.
pub fn online_line(cpu: u64, id: u64) -> (r: Vec<u8>)
    ensures
        r@ == online_text(cpu, id),
{
    let mut line = BoundedLine::new(LineSize::Bytes64);
    line.text("[SMP] CPU ");
    line.dec(cpu);
    line.text(" online (MPIDR 0x");
    line.hex(id);
    line.text("), scheduling\n");
    line.into_bytes()
}

proof fn lemma_others_prefix(a: Seq<u64>, x: u64, me: u64, n: int)
    requires
        n <= a.len(),
    ensures
        others(a.push(x), me, n) == others(a, me, n),
    decreases n,
{
    if n > 0 {
        lemma_others_prefix(a, x, me, n - 1);
        assert(a.push(x)[n - 1] == a[n - 1]);
    }
}

/// Every processor but this one is started, in the order in which they are listed.
pub proof fn law_all_others_are_started(a: Seq<u64>, x: u64, me: u64)
    ensures
        others(Seq::empty(), me, 0).len() == 0,
        x != me ==> others(a.push(x), me, a.len() as int + 1) == others(a, me, a.len() as int).push(x),
        x == me ==> others(a.push(x), me, a.len() as int + 1) == others(a, me, a.len() as int),
{
    lemma_others_prefix(a, x, me, a.len() as int);
}

/// A processor that the firmware refuses is given up. One that it starts is looked for a thousand
/// times: it is up as soon as it says so, and is not where it has not said so by then.
pub proof fn law_started_processor_is_waited_for(answer: i64, waited: u32, ready: bool)
    ensures
        StartPhase::Call.called(answer) is Refused <==> answer != 0,
        answer == 0 ==> StartPhase::Call.called(answer) == (StartPhase::Wait { waited: 0 }),
        waited < 1000 && ready ==> (StartPhase::Wait { waited }).looked(ready) == (StartPhase::Ended {
            online: true,
        }),
        waited < 1000 && !ready ==> (StartPhase::Wait { waited }).looked(ready) == (StartPhase::Wait {
            waited: (waited + 1) as u32,
        }),
        waited >= 1000 ==> (StartPhase::Wait { waited }).looked(ready) == (StartPhase::Ended {
            online: false,
        }),
        StartPhase::Refused.looked(ready) is Refused,
{
}

/// Processors get their numbers from 1 on, and each that comes up uses one.
pub proof fn law_numbers_are_used(online: Seq<bool>, n: int)
    requires
        0 <= n < online.len(),
    ensures
        index_after(online, 0) == 1,
        online[n] ==> index_after(online, n + 1) == index_after(online, n) + 1,
        !online[n] ==> index_after(online, n + 1) == index_after(online, n),
{
}

/// The lines of a stretch are as many as it touches: none for no bytes at the start of a line, and
/// one more whenever it grows past the end of one.
pub proof fn law_lines_of_a_stretch(addr: int, len: int)
    requires
        0 <= addr,
        0 <= len,
    ensures
        addr % 64 == 0 ==> line_count(addr, 0) == 0,
        (addr + len) % 64 == 0 ==> line_count(addr, len + 1) == line_count(addr, len) + 1,
        (addr + len) % 64 != 0 ==> line_count(addr, len + 1) == line_count(addr, len),
        AP_STACK_SIZE == 0x1_0000,
        PSCI_CPU_ON == 0xC400_0003,
{
}

} // verus!
