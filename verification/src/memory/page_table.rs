//! Page table management for 4-level paging: PML4, PDP, PD, PT, 4 KiB page.
//!
//! Each table has 512 entries. An entry of the middle levels either names the
//! next table or maps a huge page (1 GiB or 2 MiB) by itself.
//!
//! Every operation is a machine that walks the tables: it says which table
//! access it needs next, is given what came of it, and ends with a result.

use vstd::prelude::*;

verus! {

pub const PRESENT: u64 = 0x1;

pub const WRITABLE: u64 = 0x2;

pub const USER_ACCESSIBLE: u64 = 0x4;

pub const WRITE_THROUGH: u64 = 0x8;

pub const NO_CACHE: u64 = 0x10;

pub const ACCESSED: u64 = 0x20;

pub const HUGE_PAGE: u64 = 0x80;

pub const GLOBAL: u64 = 0x100;

pub const NO_EXECUTE: u64 = 0x8000_0000_0000_0000;

/// The bits of an entry that hold an address.
pub const ADDRESS_BITS: u64 = 0x000f_ffff_ffff_f000;

/// The bits of an entry that hold flags.
pub const FLAG_BITS: u64 = 0xfff0_0000_0000_0fff;

/// The flags that carry over when a huge page is split: present, writable,
/// user, write-through, no-cache, global, no-execute.
pub const SPLIT_ATTRS: u64 = 0x8000_0000_0000_011f;

/// The flags of an entry that names a table: present, writable, accessed.
pub const TABLE_FLAGS: u64 = 0x23;

/// First address past those that an entry can hold.
pub const ADDRESS_LIMIT: u64 = 0x10_0000_0000_0000;

/// Bytes that an entry of a table of this level covers.
pub open spec fn span(level: int) -> int {
    if level == 1 {
        0x1000
    } else if level == 2 {
        0x20_0000
    } else if level == 3 {
        0x4000_0000
    } else {
        0x80_0000_0000
    }
}

/// Bytes that an entry of a table of this level covers.
fn span_of(level: u8) -> (r: u64)
    ensures
        r == span(level as int),
{
    if level == 1 {
        0x1000
    } else if level == 2 {
        0x20_0000
    } else if level == 3 {
        0x4000_0000
    } else {
        0x80_0000_0000
    }
}

/// Index of the entry for `va` in a table of this level.
pub open spec fn index(va: int, level: int) -> int {
    va / span(level) % 512
}

/// Address of the entry for `va` in `table`.
pub open spec fn slot(table: int, va: int, level: int) -> int {
    table + 8 * index(va, level)
}

pub open spec fn is_present(e: u64) -> bool {
    e & PRESENT != 0
}

/// The entry maps a huge page by itself.
pub open spec fn is_huge(e: u64, level: int) -> bool {
    2 <= level <= 3 && e & HUGE_PAGE != 0
}

/// The address in an entry.
pub open spec fn address(e: u64) -> u64 {
    e & ADDRESS_BITS
}

/// Entries of the page tables by physical address.
pub type Mem = Map<int, u64>;

/// The page tables in memory, and the frames that the frame allocator gives,
/// in order.
pub struct Env {
    pub mem: Mem,
    pub frames: Seq<Option<u64>>,
}

impl Env {
    pub open spec fn write(self, addr: int, value: u64) -> Env {
        Env { mem: self.mem.insert(addr, value), ..self }
    }

    /// The table at `table` holds `entries`.
    pub open spec fn fill(self, table: int, entries: Seq<u64>) -> Env {
        Env { mem: filled(self.mem, table, entries), ..self }
    }

    /// The frame that the allocator gives next.
    pub open spec fn frame(self) -> Option<u64> {
        if self.frames.len() > 0 {
            self.frames[0]
        } else {
            None
        }
    }

    pub open spec fn frame_taken(self) -> Env {
        Env { frames: if self.frames.len() > 0 { self.frames.drop_first() } else { self.frames }, ..self }
    }
}

/// `a` is the address of an entry of the table at `table`.
pub open spec fn in_table(table: int, a: int) -> bool {
    table <= a < table + 4096 && (a - table) % 8 == 0
}

/// Memory with the table at `table` holding `entries`.
pub open spec fn filled(mem: Mem, table: int, entries: Seq<u64>) -> Mem {
    Map::new(
        |a: int| true,
        |a: int| if in_table(table, a) { entries[(a - table) / 8] } else { mem[a] },
    )
}

/// A table access.
#[derive(Debug, PartialEq, Eq)]
pub enum TableOp {
    /// Read an entry.
    Read { addr: u64 },
    /// Write an entry.
    Write { addr: u64, value: u64 },
    /// Write all entries of a table.
    Fill { table: u64, entries: Vec<u64> },
    /// Allocate a frame for a table.
    Alloc,
}

/// What came of a table access.
#[derive(Debug, Clone, Copy, PartialEq, Eq)]
pub enum TableReply {
    /// The entry that was read.
    Entry(u64),
    /// The entry or table was written.
    Done,
    /// The frame that was allocated, if one was free.
    Frame(Option<u64>),
}

/// What a table access is.
pub enum TableAccess {
    Read { addr: int },
    Write { addr: int, value: u64 },
    Fill { table: int, entries: Seq<u64> },
    Alloc,
}

impl View for TableOp {
    type V = TableAccess;

    open spec fn view(&self) -> TableAccess {
        match *self {
            TableOp::Read { addr } => TableAccess::Read { addr: addr as int },
            TableOp::Write { addr, value } => TableAccess::Write { addr: addr as int, value },
            TableOp::Fill { table, entries } => TableAccess::Fill {
                table: table as int,
                entries: entries@,
            },
            TableOp::Alloc => TableAccess::Alloc,
        }
    }
}

impl TableAccess {
    /// `reply` answers this access in `env`.
    pub open spec fn answered(self, env: Env, reply: TableReply) -> bool {
        match self {
            TableAccess::Read { addr } => reply == TableReply::Entry(env.mem[addr]),
            TableAccess::Write { .. } => reply == TableReply::Done,
            TableAccess::Fill { .. } => reply == TableReply::Done,
            TableAccess::Alloc => reply == TableReply::Frame(env.frame()),
        }
    }

    /// The page tables after this access.
    pub open spec fn after(self, env: Env) -> Env {
        match self {
            TableAccess::Read { .. } => env,
            TableAccess::Write { addr, value } => env.write(addr, value),
            TableAccess::Fill { table, entries } => env.fill(table, entries),
            TableAccess::Alloc => env.frame_taken(),
        }
    }

    /// A reply of the right kind; frames are aligned.
    pub open spec fn fits(self, reply: TableReply) -> bool {
        match self {
            TableAccess::Read { .. } => reply is Entry,
            TableAccess::Write { .. } => reply is Done,
            TableAccess::Fill { .. } => reply is Done,
            TableAccess::Alloc => reply is Frame && (reply->Frame_0 is Some ==> is_frame(
                reply->Frame_0->0 as int,
            )),
        }
    }
}

/// `a` is the address of a frame.
pub open spec fn is_frame(a: int) -> bool {
    a % 4096 == 0 && 0 <= a < ADDRESS_LIMIT
}

/// Why an operation failed; the number is the level of the table with the
/// entry.
#[derive(Debug, Clone, Copy, PartialEq, Eq, Structural)]
pub enum PageError {
    /// No frame for the table that the entry is to name.
    OutOfMemory(u8),
    /// The page is mapped.
    AlreadyMapped,
    /// An entry on the way to the page is not present.
    NotPresent(u8),
    /// No frame for the table that splits a huge page.
    SplitOutOfMemory,
}

/// What an operation on the page tables ends with.
#[derive(Debug, Clone, Copy, PartialEq, Eq)]
pub enum PageResult {
    /// The physical address, if the page is mapped.
    Address(Option<u64>),
    /// The flags of the mapping, if the page is mapped.
    Flags(Option<u64>),
    /// The mapping was made or changed.
    Changed,
    /// The frame that was mapped.
    Unmapped(u64),
    /// Nothing was mapped, changed or unmapped.
    Failed(PageError),
}

/// What an operation is for.
#[derive(Debug, Clone, Copy, PartialEq, Eq, Structural)]
pub enum Goal {
    /// Find the physical address.
    Translate,
    /// Find the flags of the mapping.
    Query,
    /// Map the page by this entry.
    MapTo { entry: u64 },
    /// Make the page uncacheable.
    Uncache,
    /// Unmap the page.
    Unmap,
}

/// What an entry on the way means for an operation.
pub enum Decision {
    /// The operation ends.
    Stop(PageResult),
    /// The entry gets a value and the operation ends.
    Final { value: u64, result: PageResult },
    /// The walk goes on in this table.
    Into(u64),
    /// The entry gets a table, in which the walk goes on.
    Make,
}

/// What the operation does at entry `e` for `va` in a table of this level.
pub open spec fn decision(goal: Goal, level: int, e: u64, va: u64) -> Decision {
    match goal {
        Goal::Translate => if !is_present(e) {
            Decision::Stop(PageResult::Address(None))
        } else if level == 1 || is_huge(e, level) {
            Decision::Stop(
                PageResult::Address(Some((address(e) + va as int % span(level)) as u64)),
            )
        } else {
            Decision::Into(address(e))
        },
        Goal::Query => if !is_present(e) {
            Decision::Stop(PageResult::Flags(None))
        } else if level == 1 {
            Decision::Stop(PageResult::Flags(Some(e & FLAG_BITS)))
        } else if is_huge(e, level) {
            Decision::Stop(PageResult::Flags(Some(e & FLAG_BITS & !HUGE_PAGE)))
        } else {
            Decision::Into(address(e))
        },
        Goal::MapTo { entry } => if level == 1 {
            if is_present(e) {
                Decision::Stop(PageResult::Failed(PageError::AlreadyMapped))
            } else {
                Decision::Final { value: entry, result: PageResult::Changed }
            }
        } else if is_present(e) {
            Decision::Into(address(e))
        } else {
            Decision::Make
        },
        Goal::Uncache => if !is_present(e) {
            Decision::Stop(PageResult::Failed(PageError::NotPresent(level as u8)))
        } else if level == 1 {
            Decision::Final { value: e | NO_CACHE | WRITE_THROUGH, result: PageResult::Changed }
        } else if is_huge(e, level) {
            Decision::Make
        } else {
            Decision::Into(address(e))
        },
        Goal::Unmap => if !is_present(e) {
            Decision::Stop(PageResult::Failed(PageError::NotPresent(level as u8)))
        } else if level == 1 {
            Decision::Final { value: 0, result: PageResult::Unmapped(address(e)) }
        } else {
            Decision::Into(address(e))
        },
    }
}

/// The flags of the entries that a huge page of this level is split into.
pub open spec fn child_flags(e: u64, level: int) -> u64 {
    if level == 3 {
        e & SPLIT_ATTRS | HUGE_PAGE
    } else {
        e & SPLIT_ATTRS
    }
}

/// The entries that a huge page of this level is split into: they cover the
/// same range with the same attributes.
pub open spec fn split_entries(e: u64, level: int) -> Seq<u64> {
    Seq::new(
        512,
        |i: int| ((address(e) + i * span(level - 1)) as u64) | child_flags(e, level),
    )
}

/// The entries of a table that is made below entry `e`: none, or those that
/// the huge page is split into.
pub open spec fn made_entries(goal: Goal, level: int, e: u64) -> Seq<u64> {
    if goal is Uncache {
        split_entries(e, level)
    } else {
        Seq::new(512, |i: int| 0u64)
    }
}

/// The error where no frame can be had for a table below this level.
pub open spec fn made_error(goal: Goal, level: int) -> PageError {
    if goal is Uncache {
        PageError::SplitOutOfMemory
    } else {
        PageError::OutOfMemory(level as u8)
    }
}

/// What an operation ends with when it walks on in `table`, a table of this
/// level, and the page tables then.
pub open spec fn walk(goal: Goal, env: Env, table: int, level: int, va: u64) -> (PageResult, Env)
    decreases level, 2int,
{
    if level < 1 || level > 4 {
        (PageResult::Failed(PageError::AlreadyMapped), env)
    } else {
        let at = slot(table, va as int, level);
        let e = env.mem[at];
        match decision(goal, level, e, va) {
            Decision::Stop(r) => (r, env),
            Decision::Final { value, result } => (result, env.write(at, value)),
            Decision::Into(next) => if level > 1 {
                walk(goal, env, next as int, level - 1, va)
            } else {
                (PageResult::Failed(PageError::AlreadyMapped), env)
            },
            Decision::Make => make(goal, env, table, level, va, e),
        }
    }
}

/// The same where the entry `e` for `va` in `table` gets a table.
pub open spec fn make(goal: Goal, env: Env, table: int, level: int, va: u64, e: u64) -> (
    PageResult,
    Env,
)
    decreases level, 1int,
{
    match env.frame() {
        None => (PageResult::Failed(made_error(goal, level)), env.frame_taken()),
        Some(frame) => link(
            goal,
            env.frame_taken().fill(frame as int, made_entries(goal, level, e)),
            table,
            level,
            va,
            frame,
        ),
    }
}

/// The same where the new table lies in `frame`.
pub open spec fn link(goal: Goal, env: Env, table: int, level: int, va: u64, frame: u64) -> (
    PageResult,
    Env,
)
    decreases level, 0int,
{
    let linked = env.write(slot(table, va as int, level), frame | TABLE_FLAGS);
    if level > 1 {
        walk(goal, linked, frame as int, level - 1, va)
    } else {
        (PageResult::Failed(PageError::AlreadyMapped), linked)
    }
}

/// The address in an entry is one of a frame, and its parts stay apart.
pub proof fn lemma_entry_parts(e: u64, a: u64, f: u64)
    by (bit_vector)
    ensures
        (e & 0x000f_ffff_ffff_f000) % 4096 == 0,
        (e & 0x000f_ffff_ffff_f000) < 0x10_0000_0000_0000,
        (e & 0xfff0_0000_0000_0fff) & 0x000f_ffff_ffff_f000 == 0,
        a % 4096 == 0 && a < 0x10_0000_0000_0000 && f & 0x000f_ffff_ffff_f000 == 0 ==> (a | f)
            & 0x000f_ffff_ffff_f000 == a && (a | f) & 0xfff0_0000_0000_0fff == f,
        f & 0x000f_ffff_ffff_f000 == 0 ==> (a | f) & 0x1 == (a & 0x1) | (f & 0x1),
        a % 4096 == 0 ==> a & 0x1 == 0 && a & 0x80 == 0,
        (a | f) & 0x80 == (a & 0x80) | (f & 0x80),
{
}

/// How far a `PageWalk` has come.
#[derive(Clone, Copy)]
pub enum WalkPhase {
    /// Reading the entry in `table`.
    Read { level: u8, table: u64 },
    /// Allocating a table for the entry `entry` in `table`.
    Alloc { level: u8, table: u64, entry: u64 },
    /// Writing the new table.
    Fill { level: u8, table: u64, entry: u64, frame: u64 },
    /// Writing the entry that names the new table.
    Link { level: u8, table: u64, frame: u64 },
    /// Writing the entry of the page.
    Final { addr: u64, value: u64, result: PageResult },
    /// The operation has ended.
    Ended(PageResult),
}

/// An operation on the page tables.
#[derive(Clone, Copy)]
pub struct PageWalk {
    pub goal: Goal,
    pub va: u64,
    pub phase: WalkPhase,
}

impl PageWalk {
    pub open spec fn wf(self) -> bool {
        match self.phase {
            WalkPhase::Read { level, table } => 1 <= level <= 4 && is_frame(table as int),
            WalkPhase::Alloc { level, table, entry } => 2 <= level <= 4 && is_frame(table as int)
                && (self.goal is Uncache ==> level <= 3 && address(entry) + span(level as int)
                <= ADDRESS_LIMIT),
            WalkPhase::Fill { level, table, entry, frame } => 2 <= level <= 4 && is_frame(
                table as int,
            ) && is_frame(frame as int) && (self.goal is Uncache ==> level <= 3 && address(entry)
                + span(level as int) <= ADDRESS_LIMIT),
            WalkPhase::Link { level, table, frame } => 2 <= level <= 4 && is_frame(table as int)
                && is_frame(frame as int),
            _ => true,
        }
    }

    /// The table access that the machine needs next.
    pub open spec fn op(self) -> Option<TableAccess> {
        let va = self.va as int;
        match self.phase {
            WalkPhase::Read { level, table } => Some(
                TableAccess::Read { addr: slot(table as int, va, level as int) },
            ),
            WalkPhase::Alloc { .. } => Some(TableAccess::Alloc),
            WalkPhase::Fill { level, table, entry, frame } => Some(
                TableAccess::Fill {
                    table: frame as int,
                    entries: made_entries(self.goal, level as int, entry),
                },
            ),
            WalkPhase::Link { level, table, frame } => Some(
                TableAccess::Write {
                    addr: slot(table as int, va, level as int),
                    value: frame | TABLE_FLAGS,
                },
            ),
            WalkPhase::Final { addr, value, result } => Some(
                TableAccess::Write { addr: addr as int, value },
            ),
            WalkPhase::Ended(_) => None,
        }
    }

    /// What the machine ends with, and the page tables then.
    pub open spec fn outcome(self, env: Env) -> (PageResult, Env) {
        let va = self.va;
        match self.phase {
            WalkPhase::Read { level, table } => walk(
                self.goal,
                env,
                table as int,
                level as int,
                va,
            ),
            WalkPhase::Alloc { level, table, entry } => make(
                self.goal,
                env,
                table as int,
                level as int,
                va,
                entry,
            ),
            WalkPhase::Fill { level, table, entry, frame } => link(
                self.goal,
                env.fill(frame as int, made_entries(self.goal, level as int, entry)),
                table as int,
                level as int,
                va,
                frame,
            ),
            WalkPhase::Link { level, table, frame } => link(
                self.goal,
                env,
                table as int,
                level as int,
                va,
                frame,
            ),
            WalkPhase::Final { addr, value, result } => (result, env.write(addr as int, value)),
            WalkPhase::Ended(r) => (r, env),
        }
    }

    /// Decreases with every access.
    pub open spec fn work(self) -> int {
        match self.phase {
            WalkPhase::Read { level, .. } => 4 * level + 3,
            WalkPhase::Alloc { level, .. } => 4 * level + 2,
            WalkPhase::Fill { level, .. } => 4 * level + 1,
            WalkPhase::Link { level, .. } => 4 * level,
            WalkPhase::Final { .. } => 1,
            WalkPhase::Ended(_) => 0,
        }
    }

    /// A huge page that is to be split ends inside the physical addresses.
    pub open spec fn split_ok(self, reply: TableReply) -> bool {
        match (self.phase, reply) {
            (WalkPhase::Read { level, table }, TableReply::Entry(e)) => self.goal is Uncache
                && is_present(e) && is_huge(e, level as int) ==> address(e) + span(level as int)
                <= ADDRESS_LIMIT,
            _ => true,
        }
    }

    /// The table access that the machine needs next; `None` once it has
    /// ended.
    pub fn next_op(&self) -> (r: Option<TableOp>)
        requires
            self.wf(),
        ensures
            match r {
                Some(op) => self.op() == Some(op@),
                None => self.op() is None,
            },
    {
        match self.phase {
            WalkPhase::Read { level, table } => Some(
                TableOp::Read { addr: self.slot_of(table, level) },
            ),
            WalkPhase::Alloc { level, table, entry } => Some(TableOp::Alloc),
            WalkPhase::Fill { level, table, entry, frame } => Some(
                TableOp::Fill { table: frame, entries: self.entries_below(level, entry) },
            ),
            WalkPhase::Link { level, table, frame } => Some(
                TableOp::Write { addr: self.slot_of(table, level), value: frame | TABLE_FLAGS },
            ),
            WalkPhase::Final { addr, value, result } => Some(TableOp::Write { addr, value }),
            WalkPhase::Ended(_) => None,
        }
    }

    /// What the operation ended with, once it has.
    pub fn result(&self) -> (r: Option<PageResult>)
        ensures
            r == match self.phase {
                WalkPhase::Ended(x) => Some(x),
                _ => None,
            },
    {
        match self.phase {
            WalkPhase::Ended(x) => Some(x),
            _ => None,
        }
    }

    /// Address of the entry for the page in `table`.
    fn slot_of(&self, table: u64, level: u8) -> (r: u64)
        requires
            is_frame(table as int),
            1 <= level <= 4,
        ensures
            r == slot(table as int, self.va as int, level as int),
    {
        table + 8 * (self.va / span_of(level) % 512)
    }

    /// The entries of a table that is made below `entry`.
    fn entries_below(&self, level: u8, entry: u64) -> (r: Vec<u64>)
        requires
            2 <= level <= 4,
            self.goal is Uncache ==> level <= 3 && address(entry) + span(level as int)
                <= ADDRESS_LIMIT,
        ensures
            r@ == made_entries(self.goal, level as int, entry),
    {
        let split = match self.goal {
            Goal::Uncache => true,
            _ => false,
        };
        let mut out: Vec<u64> = Vec::new();
        let flags: u64 = if level == 3 {
            entry & SPLIT_ATTRS | HUGE_PAGE
        } else {
            entry & SPLIT_ATTRS
        };
        let base: u64 = entry & ADDRESS_BITS;
        let step: u64 = if split { span_of(level - 1) } else { 0 };
        let mut i: u64 = 0;
        let mut at: u64 = base;
        while i < 512
            invariant
                i <= 512,
                2 <= level <= 4,
                split == (self.goal is Uncache),
                split ==> level <= 3 && base + span(level as int) <= ADDRESS_LIMIT,
                base == address(entry),
                split ==> step == span(level - 1),
                split ==> flags == child_flags(entry, level as int),
                !split ==> step == 0,
                at == base + i * step,
                out@ == made_entries(self.goal, level as int, entry).take(i as int),
            decreases 512 - i,
        {
            if split {
                assert(at + step <= ADDRESS_LIMIT) by (nonlinear_arith)
                    requires
                        at == base + i * step,
                        i < 512,
                        base + 512 * step <= ADDRESS_LIMIT,
                        step >= 0,
                ;
                out.push(at | flags);
            } else {
                out.push(0);
            }
            assert((i + 1) * step == i * step + step) by (nonlinear_arith);
            at += step;
            i += 1;
            assert(out@ =~= made_entries(self.goal, level as int, entry).take(i as int));
        }
        assert(made_entries(self.goal, level as int, entry).take(512) =~= made_entries(
            self.goal,
            level as int,
            entry,
        ));
        out
    }

    /// Takes what came of the access.
    pub fn feed(&mut self, reply: TableReply)
        requires
            old(self).wf(),
            old(self).op() is Some,
            old(self).op()->0.fits(reply),
            old(self).split_ok(reply),
        ensures
            final(self).wf(),
            final(self).goal == old(self).goal,
            final(self).va == old(self).va,
            0 <= final(self).work() < old(self).work(),
            forall|env: Env|
                old(self).op()->0.answered(env, reply) ==> #[trigger] final(self).outcome(
                    old(self).op()->0.after(env),
                ) == old(self).outcome(env),
    {
        match self.phase {
            WalkPhase::Read { level, table } => {
                if let TableReply::Entry(e) = reply {
                    self.fed_entry(level, table, e);
                }
            },
            WalkPhase::Alloc { level, table, entry } => {
                if let TableReply::Frame(f) = reply {
                    self.phase = match f {
                        Some(frame) => WalkPhase::Fill { level, table, entry, frame },
                        None => WalkPhase::Ended(
                            PageResult::Failed(
                                match self.goal {
                                    Goal::Uncache => PageError::SplitOutOfMemory,
                                    _ => PageError::OutOfMemory(level),
                                },
                            ),
                        ),
                    };
                }
            },
            WalkPhase::Fill { level, table, entry, frame } => {
                self.phase = WalkPhase::Link { level, table, frame };
            },
            WalkPhase::Link { level, table, frame } => {
                self.phase = WalkPhase::Read { level: level - 1, table: frame };
            },
            WalkPhase::Final { addr, value, result } => {
                self.phase = WalkPhase::Ended(result);
            },
            WalkPhase::Ended(_) => {},
        }
    }

    /// The entry `e` in `table` was read.
    fn fed_entry(&mut self, level: u8, table: u64, e: u64)
        requires
            old(self).wf(),
            old(self).phase == (WalkPhase::Read { level, table }),
            old(self).split_ok(TableReply::Entry(e)),
        ensures
            final(self).wf(),
            final(self).goal == old(self).goal,
            final(self).va == old(self).va,
            0 <= final(self).work() < old(self).work(),
            forall|env: Env|
                env.mem[slot(table as int, old(self).va as int, level as int)] == e
                    ==> #[trigger] final(self).outcome(env) == old(self).outcome(env),
    {
        proof {
            lemma_entry_parts(e, 0, 0);
        }
        let present = e & PRESENT != 0;
        let huge = 2 <= level && level <= 3 && e & HUGE_PAGE != 0;
        let addr: u64 = e & ADDRESS_BITS;
        let at: u64 = self.slot_of(table, level);
        self.phase = match self.goal {
            Goal::Translate => if !present {
                WalkPhase::Ended(PageResult::Address(None))
            } else if level == 1 || huge {
                WalkPhase::Ended(PageResult::Address(Some(addr + self.va % span_of(level))))
            } else {
                WalkPhase::Read { level: level - 1, table: addr }
            },
            Goal::Query => if !present {
                WalkPhase::Ended(PageResult::Flags(None))
            } else if level == 1 {
                WalkPhase::Ended(PageResult::Flags(Some(e & FLAG_BITS)))
            } else if huge {
                WalkPhase::Ended(PageResult::Flags(Some(e & FLAG_BITS & !HUGE_PAGE)))
            } else {
                WalkPhase::Read { level: level - 1, table: addr }
            },
            Goal::MapTo { entry } => if level == 1 {
                if present {
                    WalkPhase::Ended(PageResult::Failed(PageError::AlreadyMapped))
                } else {
                    WalkPhase::Final { addr: at, value: entry, result: PageResult::Changed }
                }
            } else if present {
                WalkPhase::Read { level: level - 1, table: addr }
            } else {
                WalkPhase::Alloc { level, table, entry: e }
            },
            Goal::Uncache => if !present {
                WalkPhase::Ended(PageResult::Failed(PageError::NotPresent(level)))
            } else if level == 1 {
                WalkPhase::Final {
                    addr: at,
                    value: e | NO_CACHE | WRITE_THROUGH,
                    result: PageResult::Changed,
                }
            } else if huge {
                WalkPhase::Alloc { level, table, entry: e }
            } else {
                WalkPhase::Read { level: level - 1, table: addr }
            },
            Goal::Unmap => if !present {
                WalkPhase::Ended(PageResult::Failed(PageError::NotPresent(level)))
            } else if level == 1 {
                WalkPhase::Final { addr: at, value: 0, result: PageResult::Unmapped(addr) }
            } else {
                WalkPhase::Read { level: level - 1, table: addr }
            },
        };
    }
}

/// An operation for the page of `va` in the page tables below `root`.
fn start(goal: Goal, root: u64, va: u64) -> (r: PageWalk)
    requires
        is_frame(root as int),
    ensures
        r.wf(),
        r.op() is Some,
        r.work() == 19,
        r.goal == goal,
        r.va == va,
        forall|env: Env| #[trigger] r.outcome(env) == walk(goal, env, root as int, 4, va),
{
    PageWalk { goal, va, phase: WalkPhase::Read { level: 4, table: root } }
}

/// Translates a virtual address to a physical one.
pub fn translate_virtual(root: u64, va: u64) -> (r: PageWalk)
    requires
        is_frame(root as int),
    ensures
        r.wf(),
        r.op() is Some,
        r.work() == 19,
        r.goal == Goal::Translate,
        forall|env: Env| #[trigger] r.outcome(env) == walk(Goal::Translate, env, root as int, 4, va),
{
    start(Goal::Translate, root, va)
}

/// Maps a 4 KiB page to a frame. Intermediate tables are made as needed.
pub fn map_page(root: u64, va: u64, frame: u64, flags: u64) -> (r: PageWalk)
    requires
        is_frame(root as int),
        is_frame(frame as int),
        flags & ADDRESS_BITS == 0,
    ensures
        r.wf(),
        r.op() is Some,
        r.work() == 19,
        r.goal == (Goal::MapTo { entry: frame | flags | PRESENT }),
        forall|env: Env| #[trigger]
            r.outcome(env) == walk(
                Goal::MapTo { entry: frame | flags | PRESENT },
                env,
                root as int,
                4,
                va,
            ),
{
    start(Goal::MapTo { entry: frame | flags | PRESENT }, root, va)
}

/// Makes the 4 KiB page of `va`, which is mapped, uncacheable. A huge page
/// that covers it is first split into tables that keep its translation and
/// attributes, so that only this page changes.
pub fn set_page_uncached(root: u64, va: u64) -> (r: PageWalk)
    requires
        is_frame(root as int),
    ensures
        r.wf(),
        r.op() is Some,
        r.work() == 19,
        r.goal == Goal::Uncache,
        forall|env: Env| #[trigger] r.outcome(env) == walk(Goal::Uncache, env, root as int, 4, va),
{
    start(Goal::Uncache, root, va)
}

/// Unmaps a 4 KiB page.
pub fn unmap_page(root: u64, va: u64) -> (r: PageWalk)
    requires
        is_frame(root as int),
    ensures
        r.wf(),
        r.op() is Some,
        r.work() == 19,
        r.goal == Goal::Unmap,
        forall|env: Env| #[trigger] r.outcome(env) == walk(Goal::Unmap, env, root as int, 4, va),
{
    start(Goal::Unmap, root, va)
}

/// Finds the flags of a mapped page.
pub fn query_page(root: u64, va: u64) -> (r: PageWalk)
    requires
        is_frame(root as int),
    ensures
        r.wf(),
        r.op() is Some,
        r.work() == 19,
        r.goal == Goal::Query,
        forall|env: Env| #[trigger] r.outcome(env) == walk(Goal::Query, env, root as int, 4, va),
{
    start(Goal::Query, root, va)
}

} // verus!
