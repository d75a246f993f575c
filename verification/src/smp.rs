//! Bringing up the application processors.
//!
//! They start in real mode at a physical address chosen by the startup IPI,
//! where a trampoline walks them up to long mode. One at a time: the mailbox
//! of the trampoline is patched, INIT is sent, 10 ms later a startup IPI, and
//! once more if the processor does not report in.

use vstd::prelude::*;
use crate::apic::{icr_ops, LocalApic};
use crate::bits::{floor_to, lemma_mask_is_floor};
use crate::bytes::{le64_bytes, put_le64, spliced};
use crate::io::IoOp;

verus! {

/// Physical address of the trampoline.
pub const TRAMPOLINE_PHYS: u64 = 0x8000;

/// The startup vector of the trampoline.
pub const TRAMPOLINE_VECTOR: u8 = 8;

/// Stack size of each application processor.
pub const AP_STACK_SIZE: usize = 0x1_0000;

/// How many CPUs have come up.
#[derive(Debug, Clone, Copy, PartialEq, Eq, Structural)]
pub struct Cpus {
    pub online: usize,
}

impl Cpus {
    /// Only the boot CPU is up.
    pub fn new() -> (r: Self)
        ensures
            r.online == 1,
    {
        Cpus { online: 1 }
    }

    /// One CPU more is up.
    pub fn came_online(&mut self)
        requires
            old(self).online < usize::MAX,
        ensures
            final(self).online == old(self).online + 1,
    {
        self.online = self.online + 1;
    }
}

/// Number of CPUs that have completed bring-up.
pub fn cpus_online(c: &Cpus) -> (r: usize)
    ensures
        r == c.online,
{
    c.online
}

/// The application processors among the first `n`, in order.
pub open spec fn aps_among(ids: Seq<u32>, bsp: u32, n: int) -> Seq<u32>
    decreases n,
{
    if n <= 0 {
        Seq::empty()
    } else if ids[n - 1] != bsp {
        aps_among(ids, bsp, n - 1).push(ids[n - 1])
    } else {
        aps_among(ids, bsp, n - 1)
    }
}

/// The processors to boot, all but the boot processor: the `i`th of them
/// becomes CPU `i + 1`.
pub fn boot_aps(ids: &[u32], bsp: u32) -> (r: Vec<u32>)
    ensures
        r@ == aps_among(ids@, bsp, ids@.len() as int),
{
    let mut aps: Vec<u32> = Vec::new();
    let mut i: usize = 0;
    while i < ids.len()
        invariant
            i <= ids@.len(),
            aps@ == aps_among(ids@, bsp, i as int),
        decreases ids@.len() - i,
    {
        if ids[i] != bsp {
            aps.push(ids[i]);
        }
        i += 1;
    }
    aps
}

/// Top of a boot stack, aligned to 16 bytes.
pub fn stack_top(bottom: u64, len: u64) -> (r: u64)
    requires
        bottom + len <= u64::MAX,
    ensures
        r == floor_to(bottom + len, 16),
{
    proof {
        lemma_mask_is_floor((bottom + len) as u64);
    }
    (bottom + len) & !0xFu64
}

/// What a processor reads from the trampoline, and where in it.
#[derive(Debug, Clone, Copy, PartialEq, Eq, Structural)]
pub struct Mailbox {
    /// Place of the page tables' address.
    pub cr3_at: usize,
    /// Place of the top of the processor's stack.
    pub stack_at: usize,
    /// Place of the address that it goes on at.
    pub entry_at: usize,
    /// Place of its CPU number.
    pub cpu_at: usize,
}

impl Mailbox {
    /// All places lie in a trampoline of `len` bytes.
    pub open spec fn fits(self, len: int) -> bool {
        &&& self.cr3_at + 8 <= len
        &&& self.stack_at + 8 <= len
        &&& self.entry_at + 8 <= len
        &&& self.cpu_at + 8 <= len
    }
}

/// The trampoline as it is put in place, with the kernel's page tables filled
/// in; `None` where it is larger than a page.
pub fn install_trampoline(code: &[u8], mailbox: &Mailbox, cr3: u64) -> (r: Option<Vec<u8>>)
    requires
        mailbox.fits(code@.len() as int),
    ensures
        match r {
            None => code@.len() > 4096,
            Some(page) => code@.len() <= 4096 && page@ == spliced(
                code@,
                mailbox.cr3_at as int,
                le64_bytes(cr3),
            ),
        },
{
    if code.len() > 4096 {
        return None;
    }
    let mut page: Vec<u8> = Vec::new();
    page.extend_from_slice(code);
    assert(page@ =~= code@);
    put_le64(&mut page, mailbox.cr3_at, cr3);
    Some(page)
}

/// Fills in what one processor needs: its stack, where it goes on, its CPU
/// number.
pub fn fill_mailbox(page: &mut Vec<u8>, mailbox: &Mailbox, stack: u64, entry: u64, cpu: u64)
    requires
        mailbox.fits(old(page)@.len() as int),
    ensures
        final(page)@ == spliced(
            spliced(
                spliced(old(page)@, mailbox.stack_at as int, le64_bytes(stack)),
                mailbox.entry_at as int,
                le64_bytes(entry),
            ),
            mailbox.cpu_at as int,
            le64_bytes(cpu),
        ),
{
    put_le64(page, mailbox.stack_at, stack);
    put_le64(page, mailbox.entry_at, entry);
    put_le64(page, mailbox.cpu_at, cpu);
}

/// How far the start of an application processor has come.
#[derive(Debug, Clone, Copy, PartialEq, Eq, Structural)]
pub enum ApPhase {
    /// INIT is to be sent.
    Init,
    /// 10 ms are to pass.
    Settle,
    /// The first startup IPI is to be sent.
    FirstSipi,
    /// The processor has 20 ms to report in, of which `waited` are over.
    FirstWait { waited: u32 },
    /// The second startup IPI is to be sent.
    SecondSipi,
    /// The processor has 1000 ms to report in, of which `waited` are over.
    SecondWait { waited: u32 },
    /// The processor is up, or not.
    Ended { online: bool },
}

/// What is to be done for the start of an application processor.
pub enum ApAction {
    /// Make these accesses.
    Access(Vec<IoOp>),
    /// Wait this many milliseconds, then look whether the processor has
    /// reported in.
    DelayMs(u32),
    /// Nothing more.
    Nothing,
}

impl ApPhase {
    /// The phase after this one, given whether the processor has reported in.
    pub open spec fn next(self, ready: bool) -> ApPhase {
        match self {
            ApPhase::Init => ApPhase::Settle,
            ApPhase::Settle => ApPhase::FirstSipi,
            ApPhase::FirstSipi => ApPhase::FirstWait { waited: 0 },
            ApPhase::FirstWait { waited } => if ready {
                ApPhase::Ended { online: true }
            } else if waited < 20 {
                ApPhase::FirstWait { waited: (waited + 1) as u32 }
            } else {
                ApPhase::SecondSipi
            },
            ApPhase::SecondSipi => ApPhase::SecondWait { waited: 0 },
            ApPhase::SecondWait { waited } => if ready {
                ApPhase::Ended { online: true }
            } else if waited < 1000 {
                ApPhase::SecondWait { waited: (waited + 1) as u32 }
            } else {
                ApPhase::Ended { online: false }
            },
            ApPhase::Ended { online } => ApPhase::Ended { online },
        }
    }

    /// Decreases with every step.
    pub open spec fn work(self) -> int {
        match self {
            ApPhase::Init => 2000,
            ApPhase::Settle => 1999,
            ApPhase::FirstSipi => 1998,
            ApPhase::FirstWait { waited } => 1990 - waited,
            ApPhase::SecondSipi => 1900,
            ApPhase::SecondWait { waited } => 1001 - waited,
            ApPhase::Ended { .. } => 0,
        }
    }
}

/// One step of starting the processor `apic_id`, which has reported in or
/// not: the next phase, and what is to be done before it.
pub fn boot_one_ap(phase: ApPhase, ready: bool, apic: &LocalApic, apic_id: u32) -> (r: (
    ApPhase,
    ApAction,
))
    requires
        apic.wf(),
        phase is FirstWait ==> phase->FirstWait_waited <= 20,
        phase is SecondWait ==> phase->SecondWait_waited <= 1000,
    ensures
        r.0 == phase.next(ready),
        !(phase is Ended) ==> 0 <= r.0.work() < phase.work(),
        match phase {
            ApPhase::Init => r.1 is Access && r.1->Access_0@ == icr_ops(*apic, apic_id, 0x4500),
            ApPhase::Settle => r.1 == ApAction::DelayMs(10),
            ApPhase::FirstSipi => r.1 is Access && r.1->Access_0@ == icr_ops(*apic, apic_id, 0x4608),
            ApPhase::FirstWait { waited } => if !ready && waited < 20 {
                r.1 == ApAction::DelayMs(1)
            } else {
                r.1 is Nothing
            },
            ApPhase::SecondSipi => r.1 is Access && r.1->Access_0@ == icr_ops(
                *apic,
                apic_id,
                0x4608,
            ),
            ApPhase::SecondWait { waited } => if !ready && waited < 1000 {
                r.1 == ApAction::DelayMs(1)
            } else {
                r.1 is Nothing
            },
            ApPhase::Ended { .. } => r.1 is Nothing,
        },
{
    match phase {
        ApPhase::Init => (ApPhase::Settle, ApAction::Access(apic.send_init(apic_id))),
        ApPhase::Settle => (ApPhase::FirstSipi, ApAction::DelayMs(10)),
        ApPhase::FirstSipi => (
            ApPhase::FirstWait { waited: 0 },
            ApAction::Access(apic.send_sipi(apic_id, TRAMPOLINE_VECTOR)),
        ),
        ApPhase::FirstWait { waited } => if ready {
            (ApPhase::Ended { online: true }, ApAction::Nothing)
        } else if waited < 20 {
            (ApPhase::FirstWait { waited: waited + 1 }, ApAction::DelayMs(1))
        } else {
            (ApPhase::SecondSipi, ApAction::Nothing)
        },
        ApPhase::SecondSipi => (
            ApPhase::SecondWait { waited: 0 },
            ApAction::Access(apic.send_sipi(apic_id, TRAMPOLINE_VECTOR)),
        ),
        ApPhase::SecondWait { waited } => if ready {
            (ApPhase::Ended { online: true }, ApAction::Nothing)
        } else if waited < 1000 {
            (ApPhase::SecondWait { waited: waited + 1 }, ApAction::DelayMs(1))
        } else {
            (ApPhase::Ended { online: false }, ApAction::Nothing)
        },
        ApPhase::Ended { online } => (ApPhase::Ended { online }, ApAction::Nothing),
    }
}

/// A processor that reports in while it is waited for is online, and nothing
/// more is sent to it.
pub proof fn law_ready_processor_is_online(waited: u32)
    ensures
        (ApPhase::FirstWait { waited }).next(true) == (ApPhase::Ended { online: true }),
        (ApPhase::SecondWait { waited }).next(true) == (ApPhase::Ended { online: true }),
        (ApPhase::Ended { online: true }).next(false) == (ApPhase::Ended { online: true }),
{
}

/// Every processor but the one that boots is started, once for each time it is
/// named and in that order, and that one is not.
pub proof fn law_other_processors_are_started(ids: Seq<u32>, bsp: u32, n: int, k: int)
    requires
        0 <= k < n <= ids.len(),
    ensures
        ids[k] != bsp ==> aps_among(ids, bsp, n).contains(ids[k]),
        !aps_among(ids, bsp, n).contains(bsp),
        aps_among(ids, bsp, 0).len() == 0,
        ids[n - 1] != bsp ==> aps_among(ids, bsp, n) == aps_among(ids, bsp, n - 1).push(ids[n - 1]),
        ids[n - 1] == bsp ==> aps_among(ids, bsp, n) == aps_among(ids, bsp, n - 1),
    decreases n,
{
    let before = aps_among(ids, bsp, n - 1);
    let all = aps_among(ids, bsp, n);
    if n > 1 {
        law_other_processors_are_started(ids, bsp, n - 1, if k < n - 1 {
            k
        } else {
            0
        });
    }
    if ids[n - 1] != bsp {
        assert(all[before.len() as int] == ids[n - 1]);
        if k < n - 1 && ids[k] != bsp {
            let j = choose|j: int| 0 <= j < before.len() && before[j] == ids[k];
            assert(all[j] == ids[k]);
        }
        if all.contains(bsp) {
            let j = choose|j: int| 0 <= j < all.len() && all[j] == bsp;
            assert(before[j] == bsp);
        }
    }
}

/// How a processor is started: an INIT, a pause, a startup message, a wait of
/// twenty milliseconds for it, then another message and a wait of a second.
pub proof fn law_startup_sequence(waited: u32, ready: bool)
    ensures
        ApPhase::Init.next(ready) is Settle,
        ApPhase::Settle.next(ready) is FirstSipi,
        ApPhase::FirstSipi.next(ready) == (ApPhase::FirstWait { waited: 0 }),
        waited < 20 ==> (ApPhase::FirstWait { waited }).next(false) == (ApPhase::FirstWait {
            waited: (waited + 1) as u32,
        }),
        waited >= 20 ==> (ApPhase::FirstWait { waited }).next(false) is SecondSipi,
        ApPhase::SecondSipi.next(ready) == (ApPhase::SecondWait { waited: 0 }),
        waited < 1000 ==> (ApPhase::SecondWait { waited }).next(false) == (ApPhase::SecondWait {
            waited: (waited + 1) as u32,
        }),
        waited >= 1000 ==> (ApPhase::SecondWait { waited }).next(false) == (ApPhase::Ended { online: false }),
        TRAMPOLINE_VECTOR * 4096 == TRAMPOLINE_PHYS,
{
}

} // verus!
