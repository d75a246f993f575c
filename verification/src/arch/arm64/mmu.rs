//! Memory management unit: 4 KiB granule, 48-bit addresses, one address space.
//!
//! The kernel runs with physical memory mapped to itself: device registers in
//! the first GiB, RAM as 2 MiB blocks from there on. Neither is open to user
//! mode or executable there. The early map covers a fixed window of RAM; what
//! the device tree says is no RAM is unmapped from it. User pages are 4 KiB
//! pages in tables that are allocated as needed.

use vstd::prelude::*;
use crate::memory::page_table::{index, is_frame, slot, Env, TableAccess, TableOp, TableReply};

verus! {

pub const VALID: u64 = 0x1;

/// A table above the last level, a page in the last.
pub const TABLE: u64 = 0x2;

/// User mode may use the page.
pub const AP_EL0_BIT: u64 = 0x40;

/// The page is read-only.
pub const AP_RO_BIT: u64 = 0x80;

/// Not executable in user mode.
pub const UXN: u64 = 0x40_0000_0000_0000;

/// The bits of an entry that hold an address.
pub const ADDR_MASK: u64 = 0x0000_FFFF_FFFF_F000;

/// An entry that names a table: table, valid.
pub const TABLE_ENTRY: u64 = 0x3;

/// A block of device registers: accessed, executable nowhere, valid.
pub const DEVICE_BLOCK: u64 = 0x60_0000_0000_0401;

/// A block of RAM: cached, shared, accessed, not executable in user mode,
/// valid.
pub const RAM_BLOCK: u64 = 0x40_0000_0000_0705;

/// A user page: cached, shared, accessed, not executable in the kernel,
/// valid.
pub const USER_PAGE: u64 = 0x20_0000_0000_0707;

pub const GIB: u64 = 0x4000_0000;

pub const MIB2: u64 = 0x20_0000;

/// Gigabytes of RAM that the early map covers.
pub const EARLY_RAM_GIB: u64 = 4;

/// First address past the RAM that the early map covers.
pub const EARLY_RAM_END: u64 = 0x1_4000_0000;

/// Memory attributes: device, normal write-back, normal non-cacheable.
pub const MAIR: u64 = 0x44_FF00;

/// System control: fixed bits, MMU, caches and stack alignment check on.
pub const SCTLR: u64 = 0x30D0_180D;

/// Register values that every CPU loads to share the boot CPU's address
/// space.
#[derive(Debug, Clone, Copy, PartialEq, Eq, Structural)]
pub struct MmuRegs {
    pub mair: u64,
    pub tcr: u64,
    pub ttbr0: u64,
    pub sctlr: u64,
}

/// Translation control for a CPU whose memory feature register holds
/// `features`: 48-bit addresses, cached and shared walks of 4 KiB tables in
/// the lower half only, and physical addresses as wide as the CPU has them,
/// 48 bits at most.
pub open spec fn tcr(features: u64) -> int {
    0x8090_3510 + (if features % 16 < 5 {
        features % 16
    } else {
        5
    }) * 0x1_0000_0000
}

fn tcr_value(features: u64) -> (r: u64)
    ensures
        r == tcr(features),
{
    let range: u64 = features % 16;
    let ips: u64 = if range < 5 {
        range
    } else {
        5
    };
    0x8090_3510 + ips * 0x1_0000_0000
}

/// The registers for tables whose first one is at `l0`, on a CPU whose memory
/// feature register holds `features`.
pub fn regs(features: u64, l0: u64) -> (r: MmuRegs)
    ensures
        r == (MmuRegs { mair: MAIR, tcr: tcr(features) as u64, ttbr0: l0, sctlr: SCTLR }),
{
    MmuRegs { mair: MAIR, tcr: tcr_value(features), ttbr0: l0, sctlr: SCTLR }
}

/// The tables of the early map.
pub struct EarlyTables {
    /// First entry of the first table; the others are zero.
    pub l0_first: u64,
    /// The table for the first 512 GiB.
    pub l1: Vec<u64>,
    /// The tables for RAM, one after the other.
    pub l2: Vec<u64>,
}

/// The entries for the first 512 GiB, where the tables for RAM begin at `l2`.
pub open spec fn early_l1(l2: u64) -> Seq<u64> {
    Seq::new(
        512,
        |i: int|
            if i == 0 {
                DEVICE_BLOCK
            } else if i <= EARLY_RAM_GIB {
                ((l2 + 4096 * (i - 1)) as u64) | TABLE_ENTRY
            } else {
                0
            },
    )
}

/// The entries for RAM: blocks that are mapped to themselves.
pub open spec fn early_l2() -> Seq<u64> {
    Seq::new(2048, |i: int| ((GIB + i * MIB2) as u64) | RAM_BLOCK)
}

/// The early map, with its second table at `l1` and those for RAM from `l2`
/// on.
pub fn early_init(l1: u64, l2: u64) -> (r: EarlyTables)
    requires
        l2 + 4 * 4096 <= u64::MAX,
    ensures
        r.l0_first == l1 | TABLE_ENTRY,
        r.l1@ == early_l1(l2),
        r.l2@ == early_l2(),
{
    let mut first: Vec<u64> = Vec::new();
    let mut i: u64 = 0;
    while i < 512
        invariant
            i <= 512,
            l2 + 4 * 4096 <= u64::MAX,
            first@ =~= early_l1(l2).take(i as int),
        decreases 512 - i,
    {
        let entry: u64 = if i == 0 {
            DEVICE_BLOCK
        } else if i <= EARLY_RAM_GIB {
            (l2 + 4096 * (i - 1)) | TABLE_ENTRY
        } else {
            0
        };
        first.push(entry);
        i += 1;
    }
    let mut blocks: Vec<u64> = Vec::new();
    let mut k: u64 = 0;
    while k < 2048
        invariant
            k <= 2048,
            blocks@ =~= early_l2().take(k as int),
        decreases 2048 - k,
    {
        blocks.push((GIB + k * MIB2) | RAM_BLOCK);
        k += 1;
    }
    assert(early_l1(l2).take(512) =~= early_l1(l2));
    assert(early_l2().take(2048) =~= early_l2());
    EarlyTables { l0_first: l1 | TABLE_ENTRY, l1: first, l2: blocks }
}

/// Parts of block and table entries.
proof fn lemma_block(pa: u64)
    by (bit_vector)
    requires
        pa % 0x20_0000 == 0,
        pa < 0x1_0000_0000_0000,
    ensures
        (pa | 0x40_0000_0000_0705) & 0x0000_FFFF_FFFF_F000 == pa,
        (pa | 0x40_0000_0000_0705) & 0x1 != 0,
        (pa | 0x40_0000_0000_0705) & 0x2 == 0,
        (pa | 0x40_0000_0000_0705) & 0x40 == 0,
        (pa | 0x40_0000_0000_0705) & 0x40_0000_0000_0000 != 0,
        0x60_0000_0000_0401u64 & 0x0000_FFFF_FFFF_F000 == 0,
        0x60_0000_0000_0401u64 & 0x40 == 0,
        0x60_0000_0000_0401u64 & 0x40_0000_0000_0000 != 0,
{
}

/// The early map maps RAM to itself, as blocks that user mode can neither use
/// nor execute; nor can it those of the device registers.
pub proof fn law_early_map_is_identity(va: u64)
    requires
        GIB <= va < EARLY_RAM_END,
    ensures
        ({
            let e = early_l2()[(va - GIB) / (MIB2 as int)];
            &&& e & VALID != 0
            &&& e & TABLE == 0
            &&& (e & ADDR_MASK) + va % MIB2 == va
            &&& e & AP_EL0_BIT == 0
            &&& e & UXN != 0
            &&& DEVICE_BLOCK & ADDR_MASK == 0
            &&& DEVICE_BLOCK & AP_EL0_BIT == 0
            &&& DEVICE_BLOCK & UXN != 0
        }),
{
    let i = (va - GIB) / (MIB2 as int);
    let pa = (GIB + i * MIB2) as u64;
    assert(pa == va - va % MIB2);
    lemma_block(pa);
}

/// The block at `pa` holds some of the RAM.
pub open spec fn in_ram(ram: Seq<(u64, u64)>, pa: int) -> bool {
    exists|k: int|
        0 <= k < ram.len() && pa + MIB2 > (#[trigger] ram[k]).0 && pa < ram[k].0 + ram[k].1
}

fn holds_ram(ram: &[(u64, u64)], pa: u64) -> (r: bool)
    requires
        pa + MIB2 <= u64::MAX,
        forall|k: int| 0 <= k < ram@.len() ==> (#[trigger] ram@[k]).0 + ram@[k].1 <= u64::MAX,
    ensures
        r == in_ram(ram@, pa as int),
{
    let mut k: usize = 0;
    while k < ram.len()
        invariant
            k <= ram@.len(),
            pa + MIB2 <= u64::MAX,
            forall|j: int| 0 <= j < ram@.len() ==> (#[trigger] ram@[j]).0 + ram@[j].1 <= u64::MAX,
            forall|j: int|
                0 <= j < k ==> !(pa + MIB2 > (#[trigger] ram@[j]).0 && pa < ram@[j].0 + ram@[j].1),
        decreases ram@.len() - k,
    {
        let (base, size) = ram[k];
        assert(ram@[k as int].0 + ram@[k as int].1 <= u64::MAX);
        if pa + MIB2 > base && pa < base + size {
            return true;
        }
        k += 1;
    }
    false
}

/// Unmaps the blocks of the early map that hold no RAM.
pub fn trim_ram(l2: &mut Vec<u64>, ram: &[(u64, u64)])
    requires
        old(l2)@.len() == 2048,
        forall|k: int| 0 <= k < ram@.len() ==> (#[trigger] ram@[k]).0 + ram@[k].1 <= u64::MAX,
    ensures
        final(l2)@ == Seq::new(
            2048,
            |i: int|
                if in_ram(ram@, GIB + i * MIB2) {
                    old(l2)@[i]
                } else {
                    0
                },
        ),
{
    let ghost before = l2@;
    let mut i: u64 = 0;
    while i < 2048
        invariant
            i <= 2048,
            l2@.len() == 2048,
            before.len() == 2048,
            forall|k: int| 0 <= k < ram@.len() ==> (#[trigger] ram@[k]).0 + ram@[k].1 <= u64::MAX,
            forall|k: int|
                0 <= k < 2048 ==> #[trigger] l2@[k] == if k >= i || in_ram(ram@, GIB + k * MIB2) {
                    before[k]
                } else {
                    0
                },
        decreases 2048 - i,
    {
        if !holds_ram(ram, GIB + i * MIB2) {
            l2.set(i as usize, 0);
        }
        i += 1;
    }
    assert(l2@ =~= Seq::new(
        2048,
        |k: int|
            if in_ram(ram@, GIB + k * MIB2) {
                before[k]
            } else {
                0
            },
    ));
}

/// The entry of a user page.
pub open spec fn user_entry(pa: u64, writable: bool, executable: bool) -> u64 {
    (pa & ADDR_MASK) | USER_PAGE | (if writable {
        0x40u64
    } else {
        0xC0u64
    }) | (if executable {
        0u64
    } else {
        UXN
    })
}

/// What a walk for a user page is for.
#[derive(Debug, Clone, Copy, PartialEq, Eq, Structural)]
pub enum UserGoal {
    /// Map the page by this entry.
    MapTo { entry: u64 },
    /// Find how the page is mapped.
    Query,
}

/// What a walk for a user page ends with.
#[derive(Debug, Clone, Copy, PartialEq, Eq)]
pub enum UserResult {
    /// The page is mapped.
    Mapped,
    /// There is no frame for a table, or a block is in the way.
    OutOfMemory,
    /// The page was mapped before.
    AlreadyMapped,
    /// `None` if the page is not mapped as a 4 KiB page, else whether user
    /// mode may use it and whether it may be written.
    Attributes(Option<(bool, bool)>),
}

/// What a walk ends with where it can go no further.
pub open spec fn blocked(goal: UserGoal) -> UserResult {
    match goal {
        UserGoal::MapTo { .. } => UserResult::OutOfMemory,
        UserGoal::Query => UserResult::Attributes(None),
    }
}

/// What the entry of a page says of it.
pub open spec fn page_says(d: u64) -> Option<(bool, bool)> {
    if d & VALID == 0 {
        None
    } else {
        Some((d & AP_EL0_BIT != 0, d & AP_RO_BIT == 0))
    }
}

/// What a walk ends with in `table`, a table that is `level` levels above the
/// pages, and the tables then.
pub open spec fn user_walk(goal: UserGoal, env: Env, table: int, level: int, va: u64) -> (UserResult, Env)
    decreases level, 2int,
{
    if level < 1 || level > 4 {
        (blocked(goal), env)
    } else {
        let at = slot(table, va as int, level);
        let d = env.mem[at];
        if level == 1 {
            match goal {
                UserGoal::MapTo { entry } => if d & VALID != 0 {
                    (UserResult::AlreadyMapped, env)
                } else {
                    (UserResult::Mapped, env.write(at, entry))
                },
                UserGoal::Query => (UserResult::Attributes(page_says(d)), env),
            }
        } else if d & VALID == 0 {
            if goal is Query {
                (blocked(goal), env)
            } else {
                user_make(goal, env, table, level, va)
            }
        } else if d & TABLE == 0 {
            (blocked(goal), env)
        } else {
            user_walk(goal, env, (d & ADDR_MASK) as int, level - 1, va)
        }
    }
}

/// The same where the entry for `va` in `table` gets a table.
pub open spec fn user_make(goal: UserGoal, env: Env, table: int, level: int, va: u64) -> (UserResult, Env)
    decreases level, 1int,
{
    match env.frame() {
        None => (blocked(goal), env.frame_taken()),
        Some(frame) => user_link(
            goal,
            env.frame_taken().fill(frame as int, empty_table()),
            table,
            level,
            va,
            frame,
        ),
    }
}

/// The same where the new table lies in `frame`.
pub open spec fn user_link(goal: UserGoal, env: Env, table: int, level: int, va: u64, frame: u64) -> (
    UserResult,
    Env,
)
    decreases level, 0int,
{
    let linked = env.write(slot(table, va as int, level), frame | TABLE_ENTRY);
    if level > 1 {
        user_walk(goal, linked, frame as int, level - 1, va)
    } else {
        (blocked(goal), linked)
    }
}

/// A table without entries.
pub open spec fn empty_table() -> Seq<u64> {
    Seq::new(512, |i: int| 0u64)
}

/// How far a walk has come.
#[derive(Clone, Copy)]
pub enum UserPhase {
    /// Reading the entry in `table`.
    Read { level: u8, table: u64 },
    /// Allocating a table for the entry in `table`.
    Alloc { level: u8, table: u64 },
    /// Clearing the new table.
    Clear { level: u8, table: u64, frame: u64 },
    /// Writing the entry that names the new table.
    Link { level: u8, table: u64, frame: u64 },
    /// Writing the entry of the page.
    Final { addr: u64, value: u64 },
    /// The walk has ended.
    Ended(UserResult),
}

/// A walk for a user page.
pub struct UserWalk {
    pub goal: UserGoal,
    pub va: u64,
    pub phase: UserPhase,
}

/// Parts of table entries.
pub proof fn lemma_table_entry(d: u64, f: u64)
    by (bit_vector)
    ensures
        (d & 0x0000_FFFF_FFFF_F000) % 4096 == 0,
        (d & 0x0000_FFFF_FFFF_F000) < 0x10_0000_0000_0000,
        (f | 0x3) & 0x1 != 0,
        (f | 0x3) & 0x2 != 0,
        f % 4096 == 0 && f < 0x1_0000_0000_0000 ==> (f | 0x3) & 0x0000_FFFF_FFFF_F000 == f,
        0u64 & 0x1 == 0,
{
}

impl UserWalk {
    pub open spec fn wf(self) -> bool {
        match self.phase {
            UserPhase::Read { level, table } => 1 <= level <= 4 && is_frame(table as int),
            UserPhase::Alloc { level, table } => 2 <= level <= 4 && is_frame(table as int)
                && self.goal is MapTo,
            UserPhase::Clear { level, table, frame } => 2 <= level <= 4 && is_frame(table as int)
                && is_frame(frame as int) && self.goal is MapTo,
            UserPhase::Link { level, table, frame } => 2 <= level <= 4 && is_frame(table as int)
                && is_frame(frame as int) && self.goal is MapTo,
            UserPhase::Final { .. } => self.goal is MapTo,
            UserPhase::Ended(_) => true,
        }
    }

    /// The table access that the walk needs next.
    pub open spec fn op(self) -> Option<TableAccess> {
        let va = self.va as int;
        match self.phase {
            UserPhase::Read { level, table } => Some(
                TableAccess::Read { addr: slot(table as int, va, level as int) },
            ),
            UserPhase::Alloc { .. } => Some(TableAccess::Alloc),
            UserPhase::Clear { level, table, frame } => Some(
                TableAccess::Fill { table: frame as int, entries: empty_table() },
            ),
            UserPhase::Link { level, table, frame } => Some(
                TableAccess::Write {
                    addr: slot(table as int, va, level as int),
                    value: frame | TABLE_ENTRY,
                },
            ),
            UserPhase::Final { addr, value } => Some(
                TableAccess::Write { addr: addr as int, value },
            ),
            UserPhase::Ended(_) => None,
        }
    }

    /// What the walk ends with, and the tables then.
    pub open spec fn outcome(self, env: Env) -> (UserResult, Env) {
        match self.phase {
            UserPhase::Read { level, table } => user_walk(
                self.goal,
                env,
                table as int,
                level as int,
                self.va,
            ),
            UserPhase::Alloc { level, table } => user_make(
                self.goal,
                env,
                table as int,
                level as int,
                self.va,
            ),
            UserPhase::Clear { level, table, frame } => user_link(
                self.goal,
                env.fill(frame as int, empty_table()),
                table as int,
                level as int,
                self.va,
                frame,
            ),
            UserPhase::Link { level, table, frame } => user_link(
                self.goal,
                env,
                table as int,
                level as int,
                self.va,
                frame,
            ),
            UserPhase::Final { addr, value } => (
                UserResult::Mapped,
                env.write(addr as int, value),
            ),
            UserPhase::Ended(r) => (r, env),
        }
    }

    /// Decreases with every access.
    pub open spec fn work(self) -> int {
        match self.phase {
            UserPhase::Read { level, .. } => 4 * level + 3,
            UserPhase::Alloc { level, .. } => 4 * level + 2,
            UserPhase::Clear { level, .. } => 4 * level + 1,
            UserPhase::Link { level, .. } => 4 * level,
            UserPhase::Final { .. } => 1,
            UserPhase::Ended(_) => 0,
        }
    }

    /// Address of the entry for the page in `table`.
    fn slot_of(&self, table: u64, level: u8) -> (r: u64)
        requires
            is_frame(table as int),
            1 <= level <= 4,
        ensures
            r == slot(table as int, self.va as int, level as int),
    {
        table + 8 * index_of(self.va, level)
    }

    /// The table access that the walk needs next; `None` once it has ended.
    pub fn next_op(&self) -> (r: Option<TableOp>)
        requires
            self.wf(),
        ensures
            match r {
                Some(op) => self.op() == Some(op@),
                None => self.op() is None,
            },
    {
        match self.phase {
            UserPhase::Read { level, table } => Some(
                TableOp::Read { addr: self.slot_of(table, level) },
            ),
            UserPhase::Alloc { level, table } => Some(TableOp::Alloc),
            UserPhase::Clear { level, table, frame } => Some(
                TableOp::Fill { table: frame, entries: no_entries() },
            ),
            UserPhase::Link { level, table, frame } => Some(
                TableOp::Write { addr: self.slot_of(table, level), value: frame | TABLE_ENTRY },
            ),
            UserPhase::Final { addr, value } => Some(TableOp::Write { addr, value }),
            UserPhase::Ended(_) => None,
        }
    }

    /// What the walk ended with, once it has.
    pub fn result(&self) -> (r: Option<UserResult>)
        ensures
            r == match self.phase {
                UserPhase::Ended(x) => Some(x),
                _ => None,
            },
    {
        match self.phase {
            UserPhase::Ended(x) => Some(x),
            _ => None,
        }
    }

    /// The entry `d` in `table` was read.
    fn fed_entry(&mut self, level: u8, table: u64, d: u64)
        requires
            old(self).wf(),
            old(self).phase == (UserPhase::Read { level, table }),
        ensures
            final(self).wf(),
            final(self).goal == old(self).goal,
            final(self).va == old(self).va,
            0 <= final(self).work() < old(self).work(),
            forall|env: Env|
                env.mem[slot(table as int, old(self).va as int, level as int)] == d
                    ==> #[trigger] final(self).outcome(env) == old(self).outcome(env),
    {
        proof {
            lemma_table_entry(d, 0);
        }
        let valid = d & VALID != 0;
        self.phase = if level == 1 {
            match self.goal {
                UserGoal::MapTo { entry } => if valid {
                    UserPhase::Ended(UserResult::AlreadyMapped)
                } else {
                    UserPhase::Final { addr: self.slot_of(table, level), value: entry }
                },
                UserGoal::Query => UserPhase::Ended(
                    UserResult::Attributes(
                        if valid {
                            Some((d & AP_EL0_BIT != 0, d & AP_RO_BIT == 0))
                        } else {
                            None
                        },
                    ),
                ),
            }
        } else if !valid {
            match self.goal {
                UserGoal::MapTo { .. } => UserPhase::Alloc { level, table },
                UserGoal::Query => UserPhase::Ended(UserResult::Attributes(None)),
            }
        } else if d & TABLE == 0 {
            match self.goal {
                UserGoal::MapTo { .. } => UserPhase::Ended(UserResult::OutOfMemory),
                UserGoal::Query => UserPhase::Ended(UserResult::Attributes(None)),
            }
        } else {
            UserPhase::Read { level: level - 1, table: d & ADDR_MASK }
        };
    }

    /// Takes what came of the access.
    pub fn feed(&mut self, reply: TableReply)
        requires
            old(self).wf(),
            old(self).op() is Some,
            old(self).op()->0.fits(reply),
        ensures
            final(self).wf(),
            final(self).goal == old(self).goal,
            final(self).va == old(self).va,
            0 <= final(self).work() < old(self).work(),
            forall|env: Env|
                old(self).op()->0.answered(env, reply) ==> #[trigger] final(self).outcome(
                    old(self).op()->0.after(env),
                ) == old(self).outcome(env),
    {
        match self.phase {
            UserPhase::Read { level, table } => {
                if let TableReply::Entry(d) = reply {
                    self.fed_entry(level, table, d);
                }
            },
            UserPhase::Alloc { level, table } => {
                if let TableReply::Frame(f) = reply {
                    self.phase = match f {
                        Some(frame) => UserPhase::Clear { level, table, frame },
                        None => UserPhase::Ended(UserResult::OutOfMemory),
                    };
                }
            },
            UserPhase::Clear { level, table, frame } => {
                self.phase = UserPhase::Link { level, table, frame };
            },
            UserPhase::Link { level, table, frame } => {
                self.phase = UserPhase::Read { level: level - 1, table: frame };
            },
            UserPhase::Final { addr, value } => {
                self.phase = UserPhase::Ended(UserResult::Mapped);
            },
            UserPhase::Ended(_) => {},
        }
    }
}

/// Index of the entry for `va` in a table `level` levels above the pages.
fn index_of(va: u64, level: u8) -> (r: u64)
    requires
        1 <= level <= 4,
    ensures
        r == index(va as int, level as int),
        r < 512,
{
    let bytes: u64 = if level == 1 {
        0x1000
    } else if level == 2 {
        0x20_0000
    } else if level == 3 {
        0x4000_0000
    } else {
        0x80_0000_0000
    };
    va / bytes % 512
}

fn no_entries() -> (r: Vec<u64>)
    ensures
        r@ == empty_table(),
{
    let mut out: Vec<u64> = Vec::new();
    let mut i: u64 = 0;
    while i < 512
        invariant
            i <= 512,
            out@ =~= empty_table().take(i as int),
        decreases 512 - i,
    {
        out.push(0);
        i += 1;
    }
    assert(empty_table().take(512) =~= empty_table());
    out
}

/// Maps the 4 KiB user page of `va` to the frame of `pa`, in the tables below
/// `root`.
pub fn map_user_page(root: u64, va: u64, pa: u64, writable: bool, executable: bool) -> (r: UserWalk)
    requires
        is_frame(root as int),
    ensures
        r.wf(),
        r.op() is Some,
        forall|env: Env| #[trigger]
            r.outcome(env) == user_walk(
                UserGoal::MapTo { entry: user_entry(pa, writable, executable) },
                env,
                root as int,
                4,
                va,
            ),
{
    let access: u64 = if writable {
        0x40
    } else {
        0xC0
    };
    let execute: u64 = if executable {
        0
    } else {
        UXN
    };
    UserWalk {
        goal: UserGoal::MapTo { entry: (pa & ADDR_MASK) | USER_PAGE | access | execute },
        va,
        phase: UserPhase::Read { level: 4, table: root },
    }
}

/// Finds how the 4 KiB page of `va` is mapped, in the tables below `root`.
pub fn query_page(root: u64, va: u64) -> (r: UserWalk)
    requires
        is_frame(root as int),
    ensures
        r.wf(),
        r.op() is Some,
        forall|env: Env| #[trigger]
            r.outcome(env) == user_walk(UserGoal::Query, env, root as int, 4, va),
{
    UserWalk { goal: UserGoal::Query, va, phase: UserPhase::Read { level: 4, table: root } }
}

/// The translation control is fixed but for the size of physical addresses, which is the processor's
/// own up to size 5.
pub proof fn law_translation_control(features: u64)
    ensures
        tcr(features) % 0x1_0000_0000 == 0x8090_3510,
        features % 16 <= 5 ==> tcr(features) / 0x1_0000_0000 == features % 16,
        features % 16 > 5 ==> tcr(features) / 0x1_0000_0000 == 5,
{
}

proof fn lemma_user_entry_bits(pa: u64, writable: bool, executable: bool)
    by (bit_vector)
    ensures
        ({
            let e = (pa & 0x0000_FFFF_FFFF_F000) | 0x20_0000_0000_0707 | (if writable {
                0x40u64
            } else {
                0xC0u64
            }) | (if executable { 0u64 } else { 0x40_0000_0000_0000u64 });
            &&& e & 0x0000_FFFF_FFFF_F000 == pa & 0x0000_FFFF_FFFF_F000
            &&& e & 0x1 != 0
            &&& e & 0x2 != 0
            &&& e & 0x40 != 0
            &&& (e & 0x80 == 0) == writable
            &&& (e & 0x40_0000_0000_0000 == 0) == executable
            &&& e & 0x20_0000_0000_0000 != 0
            &&& e & 0x400 != 0
            &&& e & 0x1C == 0x4
            &&& e & 0x300 == 0x300
        }),
{
}

/// A user page's entry has the page's address, is a valid page that user code may touch and that the
/// kernel does not execute; it is read-only exactly if writing was not asked for, and closed to
/// execution exactly if that was not asked for. It is normal memory, shared among the processors, and
/// has been accessed.
pub proof fn law_user_entry(pa: u64, writable: bool, executable: bool)
    ensures
        ({
            let e = user_entry(pa, writable, executable);
            &&& e & 0x0000_FFFF_FFFF_F000 == pa & 0x0000_FFFF_FFFF_F000
            &&& e & 0x1 != 0
            &&& e & 0x2 != 0
            &&& e & 0x40 != 0
            &&& (e & 0x80 == 0) == writable
            &&& (e & 0x40_0000_0000_0000 == 0) == executable
            &&& e & 0x20_0000_0000_0000 != 0
            &&& e & 0x400 != 0
            &&& e & 0x1C == 0x4
            &&& e & 0x300 == 0x300
        }),
        page_says(user_entry(pa, writable, executable)) == Some((true, writable)),
{
    lemma_user_entry_bits(pa, writable, executable);
}

/// An entry says nothing unless its lowest bit is set; then bit 6 says that user code may touch the
/// page and bit 7 that it is read-only.
pub proof fn law_what_an_entry_says(d: u64)
    ensures
        page_says(d) is None <==> d & 0x1 == 0,
        d & 0x1 != 0 ==> page_says(d) == Some((d & 0x40 != 0, d & 0x80 == 0)),
{
}

/// The early tables: devices in the first gibibyte, the four tables of RAM after it, nothing more; and
/// in those tables one block for every 2 MiB from 1 GiB on.
pub proof fn law_early_tables(l2: u64, i: int)
    requires
        l2 + 4 * 4096 <= u64::MAX,
    ensures
        early_l1(l2).len() == 512,
        early_l1(l2)[0] == 0x60_0000_0000_0401,
        1 <= i <= 4 ==> early_l1(l2)[i] == ((l2 + 4096 * (i - 1)) as u64) | 0x3,
        5 <= i < 512 ==> early_l1(l2)[i] == 0,
        early_l2().len() == 2048,
        0 <= i < 2048 ==> early_l2()[i] == ((0x4000_0000 + 0x20_0000 * i) as u64)
            | 0x40_0000_0000_0705,
{
}

/// A block of 2 MiB holds RAM exactly if one of its bytes lies in a bank.
pub proof fn law_block_of_ram(ram: Seq<(u64, u64)>, pa: int)
    requires
        forall|k: int| 0 <= k < ram.len() ==> (#[trigger] ram[k]).1 > 0,
    ensures
        in_ram(ram, pa) <==> exists|at: int, k: int|
            #![trigger in_bank(ram, at, k)]
            pa <= at < pa + 0x20_0000 && in_bank(ram, at, k),
{
    if in_ram(ram, pa) {
        let k = choose|k: int|
            0 <= k < ram.len() && pa + MIB2 > (#[trigger] ram[k]).0 && pa < ram[k].0 + ram[k].1;
        let at = if ram[k].0 as int > pa { ram[k].0 as int } else { pa };
        assert(in_bank(ram, at, k));
    }
    if exists|at: int, k: int|
        #![trigger in_bank(ram, at, k)]
        pa <= at < pa + 0x20_0000 && in_bank(ram, at, k) {
        let (at, k) = choose|at: int, k: int|
            #![trigger in_bank(ram, at, k)]
            pa <= at < pa + 0x20_0000 && in_bank(ram, at, k);
        assert(pa + MIB2 > ram[k].0 && pa < ram[k].0 + ram[k].1);
    }
}

/// That an address lies in a bank.
pub open spec fn in_bank(ram: Seq<(u64, u64)>, at: int, k: int) -> bool {
    0 <= k < ram.len() && ram[k].0 <= at < ram[k].0 + ram[k].1
}

/// The words and bits of the tables and of the two control registers that never change.
pub proof fn law_table_words()
    ensures
        VALID == 0x1,
        TABLE == 0x2,
        TABLE_ENTRY == 0x3,
        ADDR_MASK == 0x0000_FFFF_FFFF_F000,
        UXN == 0x40_0000_0000_0000,
        MAIR == 0x44_FF00,
        SCTLR == 0x30D0_180D,
        EARLY_RAM_END == 5 * 0x4000_0000,
{
}

/// A new table is empty.
pub proof fn law_new_table(i: int)
    requires
        0 <= i < 512,
    ensures
        empty_table().len() == 512,
        empty_table()[i] == 0,
{
}

} // verus!
