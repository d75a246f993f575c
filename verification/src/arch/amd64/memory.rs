//! Memory on this machine: the boot loader's memory map, the heap's virtual
//! region, user pages, device registers and the boot trampoline.

use vstd::prelude::*;
use crate::bits::{ceil_to, floor_to, lemma_mask_is_floor};
use crate::memory::frame_allocator::{
    addressable, built_from, header_from, FrameAllocator, PhysRange, FRAME_SIZE,
};
use crate::memory::page_table::{
    address, decision, is_frame, link, made_entries, make, map_page, set_page_uncached, slot,
    translate_virtual, walk, Decision, Env, Goal, PageResult, PageWalk, TableAccess, TableOp,
    TableReply, ADDRESS_BITS, ADDRESS_LIMIT, NO_CACHE, NO_EXECUTE, PRESENT, TABLE_FLAGS,
    USER_ACCESSIBLE, WRITABLE, WRITE_THROUGH,
};
use crate::memory::page_table_laws::{
    alike, fresh, law_map_page, law_set_page_uncached, law_translation_is_the_leaf, leaf,
    leaf_flags, low48, same_entry, splittable, table_at, translated, tree, Leaf,
};
use crate::memory::{summable, total_bytes};

verus! {

/// First address of the heap.
pub const HEAP_START: u64 = 0xFFFF_9000_0000_0000;

/// Size of the first heap.
pub const INITIAL_HEAP_SIZE: u64 = 0x40_0000;

/// The heap grows by multiples of this.
pub const HEAP_GROW_CHUNK: u64 = 0x20_0000;

/// How many usable regions are taken from the memory map.
pub const MAX_USABLE: usize = 64;

/// A region of the boot loader's memory map.
#[derive(Debug, Clone, Copy, PartialEq, Eq, Structural)]
pub struct MemoryRegion {
    pub start: u64,
    pub end: u64,
    /// RAM that nothing uses.
    pub usable: bool,
}

/// The usable ones of the first `n` regions.
pub open spec fn usable_among(regions: Seq<MemoryRegion>, n: int) -> Seq<PhysRange>
    decreases n,
{
    if n <= 0 {
        Seq::empty()
    } else if regions[n - 1].usable {
        usable_among(regions, n - 1).push(
            PhysRange { start: regions[n - 1].start, end: regions[n - 1].end },
        )
    } else {
        usable_among(regions, n - 1)
    }
}

/// All usable regions.
pub open spec fn all_usable(regions: Seq<MemoryRegion>) -> Seq<PhysRange> {
    usable_among(regions, regions.len() as int)
}

/// The usable regions that are handed out: the first of them.
pub open spec fn usable_taken(regions: Seq<MemoryRegion>) -> Seq<PhysRange> {
    let all = all_usable(regions);
    if all.len() <= MAX_USABLE {
        all
    } else {
        all.take(MAX_USABLE as int)
    }
}

/// Low memory, where the firmware's tables and the boot trampoline live.
pub open spec fn low_memory() -> Seq<PhysRange> {
    seq![PhysRange { start: 0, end: 0x10_0000 }]
}

fn usable_regions(regions: &[MemoryRegion]) -> (r: Vec<PhysRange>)
    ensures
        r@ == all_usable(regions@),
{
    let mut out: Vec<PhysRange> = Vec::new();
    let mut i: usize = 0;
    while i < regions.len()
        invariant
            i <= regions@.len(),
            out@ == usable_among(regions@, i as int),
        decreases regions@.len() - i,
    {
        let r = regions[i];
        if r.usable {
            out.push(PhysRange { start: r.start, end: r.end });
        }
        i += 1;
    }
    out
}

/// Mebibytes of all usable regions.
pub fn total_usable_mib(regions: &[MemoryRegion]) -> (r: u64)
    requires
        summable(all_usable(regions@)),
    ensures
        r == total_bytes(all_usable(regions@), all_usable(regions@).len() as int) / 0x10_0000,
{
    crate::memory::usable_mib(usable_regions(regions).as_slice())
}

/// Hands the usable regions to the frame allocator. Also gives the free and
/// the usable memory in MiB.
pub fn init(regions: &[MemoryRegion]) -> (r: (FrameAllocator, u64, u64))
    requires
        addressable(usable_taken(regions@), 0x10_0000),
        header_from(usable_taken(regions@), 0x10_0000, 0) is Some,
        summable(usable_taken(regions@)),
    ensures
        built_from(r.0, usable_taken(regions@), low_memory(), 0x10_0000),
        r.1 == r.0@.free() * 4096 / 0x10_0000,
        r.2 == total_bytes(usable_taken(regions@), usable_taken(regions@).len() as int) / 0x10_0000,
{
    let mut usable: Vec<PhysRange> = usable_regions(regions);
    if usable.len() > MAX_USABLE {
        usable.truncate(MAX_USABLE);
    }
    assert(usable@ =~= usable_taken(regions@));
    let mut reserved: Vec<PhysRange> = Vec::new();
    reserved.push(PhysRange { start: 0, end: 0x10_0000 });
    assert(reserved@ =~= low_memory());
    crate::memory::init(usable.as_slice(), reserved.as_slice(), 0x10_0000)
}

/// Where the kernel sees a physical address, given where it sees the first.
pub fn phys_to_virt(phys: u64, offset: u64) -> (r: u64)
    requires
        phys + offset <= u64::MAX,
    ensures
        r == phys + offset,
{
    phys + offset
}

/// An address that this machine accepts: its bits from 47 on are alike, or
/// are once bit 47 is extended.
pub open spec fn canonical(va: int) -> bool {
    0 <= va < 0x1_0000_0000_0000 || 0xFFFF_8000_0000_0000 <= va <= u64::MAX
}

/// A run of addresses that this machine accepts.
pub open spec fn canonical_run(va: int, len: int) -> bool {
    ||| len == 0
    ||| 0 <= va && va + len <= 0x1_0000_0000_0000
    ||| 0xFFFF_8000_0000_0000 <= va && va + len <= u64::MAX
}

/// The flags of heap pages.
pub const HEAP_FLAGS: u64 = 0x8000_0000_0000_0003;

/// What an attempt to map heap pages ends with.
#[derive(Debug, Clone, Copy, PartialEq, Eq)]
pub enum HeapResult {
    /// All pages are mapped.
    Mapped,
    /// No frame was free for a page.
    OutOfMemory,
    /// A page could not be mapped.
    Refused(PageResult),
}

/// What mapping `left` pages from `va` on ends with: each gets the next frame
/// of the allocator.
pub open spec fn heap_mapped(env: Env, root: int, va: int, left: nat) -> (HeapResult, Env)
    decreases left, 1int,
{
    if left == 0 {
        (HeapResult::Mapped, env)
    } else {
        match env.frame() {
            None => (HeapResult::OutOfMemory, env.frame_taken()),
            Some(frame) => {
                let w = walk(
                    Goal::MapTo { entry: frame | HEAP_FLAGS | PRESENT },
                    env.frame_taken(),
                    root,
                    4,
                    va as u64,
                );
                heap_page_done(w.0, w.1, root, va, left)
            },
        }
    }
}

/// The same once the first of the pages was attempted.
pub open spec fn heap_page_done(r: PageResult, env: Env, root: int, va: int, left: nat) -> (
    HeapResult,
    Env,
)
    decreases left, 0int,
{
    if left > 0 && r is Changed {
        heap_mapped(env, root, va + 4096, (left - 1) as nat)
    } else {
        (HeapResult::Refused(r), env)
    }
}

/// How far the mapping of heap pages has come.
#[derive(Clone, Copy)]
pub enum HeapStage {
    /// Taking a frame for the next page.
    Take,
    /// Mapping the next page.
    Page(PageWalk),
    /// Nothing is left to do.
    Ended(HeapResult),
}

/// Mapping of heap pages.
pub struct HeapMap {
    pub root: u64,
    /// The next page.
    pub va: u64,
    /// How many pages are left.
    pub left: u64,
    pub stage: HeapStage,
}

impl HeapMap {
    pub open spec fn wf(self) -> bool {
        &&& is_frame(self.root as int)
        &&& self.va + 4096 * self.left <= u64::MAX
        &&& match self.stage {
            HeapStage::Take => self.left > 0,
            HeapStage::Page(w) => self.left > 0 && w.wf() && w.op() is Some && w.work() < 32,
            HeapStage::Ended(_) => true,
        }
    }

    /// The table access that is needed next.
    pub open spec fn op(self) -> Option<TableAccess> {
        match self.stage {
            HeapStage::Take => Some(TableAccess::Alloc),
            HeapStage::Page(w) => w.op(),
            HeapStage::Ended(_) => None,
        }
    }

    /// What the mapping ends with, and the page tables then.
    pub open spec fn outcome(self, env: Env) -> (HeapResult, Env) {
        let va = self.va as int;
        match self.stage {
            HeapStage::Take => heap_mapped(env, self.root as int, va, self.left as nat),
            HeapStage::Page(w) => {
                let o = w.outcome(env);
                heap_page_done(o.0, o.1, self.root as int, va, self.left as nat)
            },
            HeapStage::Ended(r) => (r, env),
        }
    }

    /// Decreases with every access.
    pub open spec fn work(self) -> int {
        match self.stage {
            HeapStage::Take => 32 * self.left,
            HeapStage::Page(w) => 32 * (self.left - 1) + w.work(),
            HeapStage::Ended(_) => 0,
        }
    }

    /// The reply is one to the access that is needed.
    pub open spec fn accepts(self, reply: TableReply) -> bool {
        &&& self.op() is Some
        &&& self.op()->0.fits(reply)
        &&& self.stage is Page ==> self.stage->Page_0.split_ok(reply)
    }

    /// The table access that is needed next; `None` once the mapping ended.
    pub fn next_op(&self) -> (r: Option<TableOp>)
        requires
            self.wf(),
        ensures
            match r {
                Some(op) => self.op() == Some(op@),
                None => self.op() is None,
            },
    {
        match self.stage {
            HeapStage::Take => Some(TableOp::Alloc),
            HeapStage::Page(w) => w.next_op(),
            HeapStage::Ended(_) => None,
        }
    }

    /// What the mapping ended with, once it has.
    pub fn result(&self) -> (r: Option<HeapResult>)
        ensures
            r == match self.stage {
                HeapStage::Ended(x) => Some(x),
                _ => None,
            },
    {
        match self.stage {
            HeapStage::Ended(x) => Some(x),
            _ => None,
        }
    }

    /// Takes what came of the access.
    pub fn feed(&mut self, reply: TableReply)
        requires
            old(self).wf(),
            old(self).accepts(reply),
        ensures
            final(self).wf(),
            0 <= final(self).work() < old(self).work(),
            forall|env: Env|
                old(self).op()->0.answered(env, reply) ==> #[trigger] final(self).outcome(
                    old(self).op()->0.after(env),
                ) == old(self).outcome(env),
    {
        let ghost before = *self;
        match self.stage {
            HeapStage::Take => {
                if let TableReply::Frame(f) = reply {
                    match f {
                        None => {
                            self.stage = HeapStage::Ended(HeapResult::OutOfMemory);
                        },
                        Some(frame) => {
                            proof {
                                lemma_flag_bits();
                            }
                            self.stage = HeapStage::Page(
                                map_page(self.root, self.va, frame, HEAP_FLAGS),
                            );
                        },
                    }
                }
            },
            HeapStage::Page(walk) => {
                let mut w: PageWalk = walk;
                w.feed(reply);
                match w.result() {
                    None => {
                        self.stage = HeapStage::Page(w);
                    },
                    Some(r) => {
                        let done = match r {
                            PageResult::Changed => true,
                            _ => false,
                        };
                        if !done {
                            self.stage = HeapStage::Ended(HeapResult::Refused(r));
                        } else {
                            self.va = self.va + 4096;
                            self.left = self.left - 1;
                            self.stage = if self.left == 0 {
                                HeapStage::Ended(HeapResult::Mapped)
                            } else {
                                HeapStage::Take
                            };
                        }
                        assert forall|env: Env| before.op()->0.answered(env, reply) implies
                            #[trigger] self.outcome(before.op()->0.after(env)) == before.outcome(
                            env,
                        ) by {
                            assert(w.outcome(walk.op()->0.after(env)) == walk.outcome(env));
                        }
                    },
                }
            },
            HeapStage::Ended(_) => {},
        }
    }
}

/// Flags hold no address.
proof fn lemma_flag_bits()
    by (bit_vector)
    ensures
        0x8000_0000_0000_0003u64 & 0x000f_ffff_ffff_f000 == 0,
        0x8000_0000_0000_001bu64 & 0x000f_ffff_ffff_f000 == 0,
        0x5u64 & 0x000f_ffff_ffff_f000 == 0,
        0x7u64 & 0x000f_ffff_ffff_f000 == 0,
        0x8000_0000_0000_0005u64 & 0x000f_ffff_ffff_f000 == 0,
        0x8000_0000_0000_0007u64 & 0x000f_ffff_ffff_f000 == 0,
        0x3u64 & 0x000f_ffff_ffff_f000 == 0,
{
}

/// Maps the pages of `size` bytes from `virt_start` on.
fn map_heap_pages(root: u64, virt_start: u64, size: u64) -> (r: HeapMap)
    requires
        is_frame(root as int),
        size <= u64::MAX - 4096,
        canonical_run(virt_start as int, ceil_to(size as int, 4096)),
        virt_start + ceil_to(size as int, 4096) <= u64::MAX,
    ensures
        r.wf(),
        forall|env: Env| #[trigger]
            r.outcome(env) == heap_mapped(
                env,
                root as int,
                virt_start as int,
                (ceil_to(size as int, 4096) / 4096) as nat,
            ),
{
    let left: u64 = (size + FRAME_SIZE - 1) / FRAME_SIZE;
    HeapMap {
        root,
        va: virt_start,
        left,
        stage: if left == 0 {
            HeapStage::Ended(HeapResult::Mapped)
        } else {
            HeapStage::Take
        },
    }
}

/// Maps the first heap, whose range it also gives.
pub fn heap_init(root: u64) -> (r: (u64, u64, HeapMap))
    requires
        is_frame(root as int),
    ensures
        r.0 == HEAP_START,
        r.1 == HEAP_START + INITIAL_HEAP_SIZE,
        r.2.wf(),
        forall|env: Env| #[trigger]
            r.2.outcome(env) == heap_mapped(
                env,
                root as int,
                HEAP_START as int,
                (INITIAL_HEAP_SIZE / 4096) as nat,
            ),
{
    let m = map_heap_pages(root, HEAP_START, INITIAL_HEAP_SIZE);
    (HEAP_START, HEAP_START + INITIAL_HEAP_SIZE, m)
}

/// Rounding up to whole chunks gives whole pages.
proof fn lemma_chunks(needed: int)
    requires
        0 <= needed,
    ensures
        ceil_to(needed, HEAP_GROW_CHUNK as int) == (needed + HEAP_GROW_CHUNK - 1)
            / HEAP_GROW_CHUNK as int * HEAP_GROW_CHUNK,
        needed <= ceil_to(needed, HEAP_GROW_CHUNK as int) < needed + HEAP_GROW_CHUNK,
        ceil_to(ceil_to(needed, HEAP_GROW_CHUNK as int), 4096) == ceil_to(
            needed,
            HEAP_GROW_CHUNK as int,
        ),
{
    let q = (needed + 0x1F_FFFF) / 0x20_0000;
    assert(ceil_to(needed, 0x20_0000) == q * 0x20_0000);
    assert((q * 0x20_0000 + 4095) % 4096 == 4095);
}

/// Grows the heap past `end` by at least `needed` bytes; also gives the bytes
/// that are added.
pub fn heap_extend(root: u64, end: u64, needed: u64) -> (r: (u64, HeapMap))
    requires
        is_frame(root as int),
        needed + HEAP_GROW_CHUNK <= u64::MAX,
        canonical_run(end as int, ceil_to(needed as int, HEAP_GROW_CHUNK as int)),
        end + ceil_to(needed as int, HEAP_GROW_CHUNK as int) <= u64::MAX,
    ensures
        r.0 == ceil_to(needed as int, HEAP_GROW_CHUNK as int),
        needed <= r.0 < needed + HEAP_GROW_CHUNK,
        r.1.wf(),
        forall|env: Env| #[trigger]
            r.1.outcome(env) == heap_mapped(env, root as int, end as int, (r.0 / 4096) as nat),
{
    proof {
        lemma_chunks(needed as int);
    }
    let grow: u64 = (needed + HEAP_GROW_CHUNK - 1) / HEAP_GROW_CHUNK * HEAP_GROW_CHUNK;
    (grow, map_heap_pages(root, end, grow))
}

/// The flags of a user page.
pub open spec fn user_flags(writable: bool, executable: bool) -> u64 {
    if writable {
        if executable {
            0x7
        } else {
            0x8000_0000_0000_0007
        }
    } else if executable {
        0x5
    } else {
        0x8000_0000_0000_0005
    }
}

/// Maps the 4 KiB user page of `va` to the frame of `pa`.
pub fn map_user_page(root: u64, va: u64, pa: u64, writable: bool, executable: bool) -> (r: PageWalk)
    requires
        is_frame(root as int),
        canonical(va as int),
        pa < ADDRESS_LIMIT,
    ensures
        r.wf(),
        forall|env: Env| #[trigger]
            r.outcome(env) == walk(
                Goal::MapTo {
                    entry: (floor_to(pa as int, 4096) as u64) | user_flags(writable, executable)
                        | PRESENT,
                },
                env,
                root as int,
                4,
                va,
            ),
{
    let flags: u64 = match (writable, executable) {
        (true, true) => PRESENT + USER_ACCESSIBLE + WRITABLE,
        (true, false) => NO_EXECUTE + PRESENT + USER_ACCESSIBLE + WRITABLE,
        (false, true) => PRESENT + USER_ACCESSIBLE,
        (false, false) => NO_EXECUTE + PRESENT + USER_ACCESSIBLE,
    };
    proof {
        lemma_flag_bits();
    }
    map_page(root, va, pa - pa % 4096, flags)
}

/// What a query of a page's flags says of the page: `None` if it is not
/// mapped, else whether user mode may use it and whether it may be written.
pub open spec fn attributes(flags: Option<u64>) -> Option<(bool, bool)> {
    match flags {
        None => None,
        Some(f) => Some((f & USER_ACCESSIBLE != 0, f & WRITABLE != 0)),
    }
}

/// Asks for the mapping of `va`; what comes of it goes to `page_attributes`.
pub fn query_page(root: u64, va: u64) -> (r: PageWalk)
    requires
        is_frame(root as int),
        canonical(va as int),
    ensures
        r.wf(),
        forall|env: Env| #[trigger] r.outcome(env) == walk(Goal::Query, env, root as int, 4, va),
{
    crate::memory::page_table::query_page(root, va)
}

/// Whether a page is mapped: `None` if not, else whether user mode may use it
/// and whether it may be written.
pub fn page_attributes(flags: Option<u64>) -> (r: Option<(bool, bool)>)
    ensures
        r == attributes(flags),
{
    match flags {
        None => None,
        Some(f) => Some((f & USER_ACCESSIBLE != 0, f & WRITABLE != 0)),
    }
}

/// The mapping with these flags, if there is one, is uncacheable.
pub open spec fn uncacheable(flags: Option<u64>) -> bool {
    flags is Some && flags->0 & NO_CACHE != 0
}

fn page_is_uncached(flags: Option<u64>) -> (r: bool)
    ensures
        r == uncacheable(flags),
{
    match flags {
        Some(f) => f & NO_CACHE != 0,
        None => false,
    }
}

/// Pages that are to be mapped where they are not.
pub struct EnsurePlan {
    pub root: int,
    /// Where the first physical address is seen.
    pub offset: int,
    /// End of the physical range.
    pub end: int,
    /// Flags for pages that are not mapped.
    pub flags: u64,
    /// Pages that are mapped are made uncacheable.
    pub uncached: bool,
}

/// What mapping the pages ends with.
#[derive(Debug, Clone, Copy, PartialEq, Eq)]
pub enum EnsureResult {
    /// All pages are mapped as asked.
    Mapped,
    /// A page could not be mapped or changed.
    Refused(PageResult),
}

/// What mapping the pages from `phys` on ends with, the pages that were
/// mapped and had to be made uncacheable, and the page tables then.
pub open spec fn ensured(p: EnsurePlan, phys: int, forced: Seq<int>, env: Env) -> (
    EnsureResult,
    Seq<int>,
    Env,
)
    decreases (if phys < p.end { p.end - phys } else { 0 }), 3int,
{
    if phys >= p.end {
        (EnsureResult::Mapped, forced, env)
    } else {
        let w = walk(Goal::Translate, env, p.root, 4, (p.offset + phys) as u64);
        page_found(p, phys, forced, w.0, w.1)
    }
}

/// The same once the address of the page was looked for.
pub open spec fn page_found(p: EnsurePlan, phys: int, forced: Seq<int>, r: PageResult, env: Env) -> (
    EnsureResult,
    Seq<int>,
    Env,
)
    decreases (if phys < p.end { p.end - phys } else { 0 }), 2int,
{
    let va = (p.offset + phys) as u64;
    if r == PageResult::Address(None) {
        let w = walk(
            Goal::MapTo { entry: (phys as u64) | p.flags | PRESENT },
            env,
            p.root,
            4,
            va,
        );
        page_done(p, phys, forced, forced, w.0, w.1)
    } else if p.uncached {
        let w = walk(Goal::Query, env, p.root, 4, va);
        page_flagged(p, phys, forced, w.0, w.1)
    } else {
        page_done(p, phys, forced, forced, PageResult::Changed, env)
    }
}

/// The same once the flags of the page were looked for.
pub open spec fn page_flagged(p: EnsurePlan, phys: int, forced: Seq<int>, r: PageResult, env: Env) -> (
    EnsureResult,
    Seq<int>,
    Env,
)
    decreases (if phys < p.end { p.end - phys } else { 0 }), 1int,
{
    if r is Flags && uncacheable(r->Flags_0) {
        page_done(p, phys, forced, forced, PageResult::Changed, env)
    } else {
        let w = walk(Goal::Uncache, env, p.root, 4, (p.offset + phys) as u64);
        page_done(p, phys, forced, forced.push(phys), w.0, w.1)
    }
}

/// The same once the page was mapped or changed, or refused; `now` are the
/// pages that were made uncacheable if it was not.
pub open spec fn page_done(
    p: EnsurePlan,
    phys: int,
    forced: Seq<int>,
    now: Seq<int>,
    r: PageResult,
    env: Env,
) -> (EnsureResult, Seq<int>, Env)
    decreases (if phys < p.end { p.end - phys } else { 0 }), 0int,
{
    if !(r is Changed) {
        (EnsureResult::Refused(r), forced, env)
    } else if phys < p.end {
        ensured(p, phys + 4096, now, env)
    } else {
        (EnsureResult::Mapped, now, env)
    }
}

/// How far the mapping of a range has come.
#[derive(Clone, Copy)]
pub enum EnsureStage {
    /// Looking for the address of the next page.
    Find(PageWalk),
    /// Mapping it.
    Place(PageWalk),
    /// Looking for its flags.
    Query(PageWalk),
    /// Making it uncacheable.
    Uncache(PageWalk),
    /// Nothing is left to do.
    Ended(EnsureResult),
}

/// Mapping of a physical range.
pub struct EnsureMapped {
    pub root: u64,
    pub offset: u64,
    pub phys: u64,
    pub end: u64,
    pub flags: u64,
    pub uncached: bool,
    pub stage: EnsureStage,
    /// Pages that were made uncacheable.
    pub forced: Vec<u64>,
}

/// Numbers without a width.
pub open spec fn wide(s: Seq<u64>) -> Seq<int> {
    s.map_values(|x: u64| x as int)
}

impl EnsureMapped {
    pub open spec fn plan(self) -> EnsurePlan {
        EnsurePlan {
            root: self.root as int,
            offset: self.offset as int,
            end: self.end as int,
            flags: self.flags,
            uncached: self.uncached,
        }
    }

    /// The walk of the stage, if there is one.
    pub open spec fn walk(self) -> Option<PageWalk> {
        match self.stage {
            EnsureStage::Find(w) => Some(w),
            EnsureStage::Place(w) => Some(w),
            EnsureStage::Query(w) => Some(w),
            EnsureStage::Uncache(w) => Some(w),
            EnsureStage::Ended(_) => None,
        }
    }

    pub open spec fn wf(self) -> bool {
        &&& is_frame(self.root as int)
        &&& self.flags & ADDRESS_BITS == 0
        &&& self.phys % 4096 == 0
        &&& self.end % 4096 == 0
        &&& self.phys <= self.end <= ADDRESS_LIMIT
        &&& self.offset + self.end <= u64::MAX
        &&& match self.walk() {
            Some(w) => w.wf() && w.op() is Some && w.work() < 32 && self.phys < self.end,
            None => true,
        }
    }

    /// The table access that is needed next.
    pub open spec fn op(self) -> Option<TableAccess> {
        match self.walk() {
            Some(w) => w.op(),
            None => None,
        }
    }

    /// What the mapping ends with, the pages that were made uncacheable, and
    /// the page tables then.
    pub open spec fn outcome(self, env: Env) -> (EnsureResult, Seq<int>, Env) {
        let p = self.plan();
        let phys = self.phys as int;
        let forced = wide(self.forced@);
        match self.stage {
            EnsureStage::Find(w) => {
                let o = w.outcome(env);
                page_found(p, phys, forced, o.0, o.1)
            },
            EnsureStage::Place(w) => {
                let o = w.outcome(env);
                page_done(p, phys, forced, forced, o.0, o.1)
            },
            EnsureStage::Query(w) => {
                let o = w.outcome(env);
                page_flagged(p, phys, forced, o.0, o.1)
            },
            EnsureStage::Uncache(w) => {
                let o = w.outcome(env);
                page_done(p, phys, forced, forced.push(phys), o.0, o.1)
            },
            EnsureStage::Ended(r) => (r, forced, env),
        }
    }

    /// Decreases with every access.
    pub open spec fn work(self) -> int {
        let pages = (self.end - self.phys) / 4096;
        match self.stage {
            EnsureStage::Find(w) => 128 * (pages - 1) + 96 + w.work(),
            EnsureStage::Query(w) => 128 * (pages - 1) + 64 + w.work(),
            EnsureStage::Place(w) => 128 * (pages - 1) + w.work(),
            EnsureStage::Uncache(w) => 128 * (pages - 1) + w.work(),
            EnsureStage::Ended(_) => 0,
        }
    }

    /// The reply is one to the access that is needed.
    pub open spec fn accepts(self, reply: TableReply) -> bool {
        &&& self.walk() is Some
        &&& self.op()->0.fits(reply)
        &&& self.walk()->0.split_ok(reply)
    }

    /// The table access that is needed next; `None` once the mapping ended.
    pub fn next_op(&self) -> (r: Option<TableOp>)
        requires
            self.wf(),
        ensures
            match r {
                Some(op) => self.op() == Some(op@),
                None => self.op() is None,
            },
    {
        match self.stage {
            EnsureStage::Find(w) => w.next_op(),
            EnsureStage::Place(w) => w.next_op(),
            EnsureStage::Query(w) => w.next_op(),
            EnsureStage::Uncache(w) => w.next_op(),
            EnsureStage::Ended(_) => None,
        }
    }

    /// What the mapping ended with, once it has.
    pub fn result(&self) -> (r: Option<EnsureResult>)
        ensures
            r == match self.stage {
                EnsureStage::Ended(x) => Some(x),
                _ => None,
            },
    {
        match self.stage {
            EnsureStage::Ended(x) => Some(x),
            _ => None,
        }
    }

    /// Begins the page at `phys`, or ends.
    fn begin_page(&mut self)
        requires
            is_frame(old(self).root as int),
            old(self).flags & ADDRESS_BITS == 0,
            old(self).phys % 4096 == 0,
            old(self).end % 4096 == 0,
            old(self).phys <= old(self).end <= ADDRESS_LIMIT,
            old(self).offset + old(self).end <= u64::MAX,
        ensures
            final(self).wf(),
            final(self).phys == old(self).phys,
            final(self).end == old(self).end,
            0 <= final(self).work() <= 128 * ((old(self).end - old(self).phys) / 4096),
            forall|env: Env| #[trigger]
                final(self).outcome(env) == ensured(
                    old(self).plan(),
                    old(self).phys as int,
                    wide(old(self).forced@),
                    env,
                ),
    {
        if self.phys < self.end {
            self.stage = EnsureStage::Find(translate_virtual(self.root, self.offset + self.phys));
        } else {
            self.stage = EnsureStage::Ended(EnsureResult::Mapped);
        }
    }

    /// The page was mapped or changed, or refused; `force` tells whether it
    /// was made uncacheable.
    fn end_page(&mut self, r: PageResult, force: bool)
        requires
            old(self).wf(),
            old(self).phys < old(self).end,
        ensures
            final(self).wf(),
            0 <= final(self).work() <= 128 * ((old(self).end - old(self).phys) / 4096 - 1),
            ({
                let forced = wide(old(self).forced@);
                let now = if force {
                    forced.push(old(self).phys as int)
                } else {
                    forced
                };
                forall|env: Env| #[trigger]
                    final(self).outcome(env) == page_done(
                        old(self).plan(),
                        old(self).phys as int,
                        forced,
                        now,
                        r,
                        env,
                    )
            }),
    {
        let done = match r {
            PageResult::Changed => true,
            _ => false,
        };
        if !done {
            self.stage = EnsureStage::Ended(EnsureResult::Refused(r));
        } else {
            if force {
                self.forced.push(self.phys);
                assert(wide(self.forced@) =~= wide(old(self).forced@).push(old(self).phys as int));
            }
            self.phys = self.phys + 4096;
            self.begin_page();
        }
    }

    /// Takes what came of the access.
    pub fn feed(&mut self, reply: TableReply)
        requires
            old(self).wf(),
            old(self).accepts(reply),
        ensures
            final(self).wf(),
            0 <= final(self).work() < old(self).work(),
            forall|env: Env|
                old(self).op()->0.answered(env, reply) ==> #[trigger] final(self).outcome(
                    old(self).op()->0.after(env),
                ) == old(self).outcome(env),
    {
        let ghost before = *self;
        let mut w: PageWalk = match self.stage {
            EnsureStage::Find(w) => w,
            EnsureStage::Place(w) => w,
            EnsureStage::Query(w) => w,
            EnsureStage::Uncache(w) => w,
            EnsureStage::Ended(_) => return ,
        };
        let ghost first = w;
        w.feed(reply);
        let va: u64 = self.offset + self.phys;
        match w.result() {
            None => {
                self.stage = match self.stage {
                    EnsureStage::Find(_) => EnsureStage::Find(w),
                    EnsureStage::Place(_) => EnsureStage::Place(w),
                    EnsureStage::Query(_) => EnsureStage::Query(w),
                    _ => EnsureStage::Uncache(w),
                };
            },
            Some(r) => match self.stage {
                EnsureStage::Find(_) => {
                    let missing = match r {
                        PageResult::Address(None) => true,
                        _ => false,
                    };
                    if missing {
                        self.stage = EnsureStage::Place(
                            map_page(self.root, va, self.phys, self.flags),
                        );
                    } else if self.uncached {
                        self.stage = EnsureStage::Query(
                            crate::memory::page_table::query_page(self.root, va),
                        );
                    } else {
                        self.end_page(PageResult::Changed, false);
                    }
                },
                EnsureStage::Query(_) => {
                    let uncached = match r {
                        PageResult::Flags(f) => page_is_uncached(f),
                        _ => false,
                    };
                    if uncached {
                        self.end_page(PageResult::Changed, false);
                    } else {
                        self.stage = EnsureStage::Uncache(set_page_uncached(self.root, va));
                    }
                },
                EnsureStage::Uncache(_) => self.end_page(r, true),
                _ => self.end_page(r, false),
            },
        }
        assert forall|env: Env| before.op()->0.answered(env, reply) implies #[trigger] self.outcome(
            before.op()->0.after(env),
        ) == before.outcome(env) by {
            let env2 = first.op()->0.after(env);
            assert(w.outcome(env2) == first.outcome(env));
        }
    }
}

/// Flags for device registers and other physical ranges.
pub open spec fn range_flags(uncached: bool) -> u64 {
    if uncached {
        0x8000_0000_0000_001b
    } else {
        0x8000_0000_0000_0003
    }
}

/// Makes a physical range accessible where the kernel sees physical memory,
/// from `offset` on: pages that are not mapped are mapped, and with
/// `uncached` those that are mapped are made uncacheable where they are not.
pub fn ensure_phys_mapped(root: u64, offset: u64, phys_start: u64, len: u64, uncached: bool) -> (r:
    EnsureMapped)
    requires
        is_frame(root as int),
        ceil_to(phys_start + len, 4096) <= ADDRESS_LIMIT,
        offset + ceil_to(phys_start + len, 4096) <= u64::MAX,
        canonical_run(
            offset + floor_to(phys_start as int, 4096),
            ceil_to(phys_start + len, 4096) - floor_to(phys_start as int, 4096),
        ),
    ensures
        r.wf(),
        ({
            let plan = EnsurePlan {
                root: root as int,
                offset: offset as int,
                end: ceil_to(phys_start + len, 4096),
                flags: range_flags(uncached),
                uncached,
            };
            forall|env: Env| #[trigger]
                r.outcome(env) == ensured(
                    plan,
                    floor_to(phys_start as int, 4096),
                    Seq::empty(),
                    env,
                )
        }),
{
    proof {
        lemma_flag_bits();
        lemma_mask_is_floor(phys_start);
        lemma_mask_is_floor((phys_start + len + 0xFFF) as u64);
    }
    let start: u64 = phys_start & !0xFFFu64;
    let end: u64 = (phys_start + len + 0xFFF) & !0xFFFu64;
    let flags: u64 = if uncached {
        NO_EXECUTE + PRESENT + WRITABLE + NO_CACHE + WRITE_THROUGH
    } else {
        NO_EXECUTE + PRESENT + WRITABLE
    };
    let mut m = EnsureMapped {
        root,
        offset,
        phys: start,
        end,
        flags,
        uncached,
        stage: EnsureStage::Ended(EnsureResult::Mapped),
        forced: Vec::new(),
    };
    assert(wide(m.forced@) =~= Seq::<int>::empty());
    m.begin_page();
    m
}

/// Maps the page of `phys` to itself, executable, where it is not mapped: a
/// processor that enables paging goes on at its physical address.
pub fn identity_map_executable(root: u64, phys: u64) -> (r: EnsureMapped)
    requires
        is_frame(root as int),
        phys < 0x1_0000_0000_0000,
    ensures
        r.wf(),
        ({
            let page = floor_to(phys as int, 4096);
            let plan = EnsurePlan {
                root: root as int,
                offset: 0,
                end: page + 4096,
                flags: 0x3,
                uncached: false,
            };
            forall|env: Env| #[trigger]
                r.outcome(env) == ensured(plan, page, Seq::empty(), env)
        }),
{
    proof {
        lemma_flag_bits();
    }
    let page: u64 = phys - phys % 4096;
    let mut m = EnsureMapped {
        root,
        offset: 0,
        phys: page,
        end: page + 4096,
        flags: PRESENT + WRITABLE,
        uncached: false,
        stage: EnsureStage::Ended(EnsureResult::Mapped),
        forced: Vec::new(),
    };
    assert(wide(m.forced@) =~= Seq::<int>::empty());
    m.begin_page();
    m
}

/// Bits of entries and flags.
proof fn lemma_attribute_bits(e: u64, a: u64)
    by (bit_vector)
    ensures
        (e & 0xfff0_0000_0000_0fff) & 0x10 == e & 0x10,
        (e & 0xfff0_0000_0000_0fff & !0x80u64) & 0x10 == e & 0x10,
        (a | 0x8000_0000_0000_001b | 0x1) & 0x10 != 0,
        (a | e | 0x1) & 0x1 != 0,
        a % 4096 == 0 && a < 0x10_0000_0000_0000 && e & 0x000f_ffff_ffff_f000 == 0 ==> (a | e | 0x1)
            & 0x000f_ffff_ffff_f000 == a,
{
}

/// Pages that are to be made accessible in page tables that are a tree, with
/// frames for more of them.
pub open spec fn ensurable(p: EnsurePlan, phys: int, env: Env) -> bool {
    &&& is_frame(p.root)
    &&& tree(env.mem, p.root)
    &&& fresh(env, p.root)
    &&& 0 <= phys <= p.end <= ADDRESS_LIMIT
    &&& phys % 4096 == 0
    &&& p.end % 4096 == 0
    &&& 0 <= p.offset
    &&& p.offset % 4096 == 0
    &&& canonical_run(p.offset + phys, p.end - phys)
    &&& p.flags & ADDRESS_BITS == 0
    &&& p.uncached ==> p.flags == range_flags(true)
    &&& forall|a: int|
        phys <= a < p.end && a % 4096 == 0 ==> splittable(
            #[trigger] leaf(env.mem, p.root, 4, p.offset + a),
        )
}

/// The page at `phys` is mapped after `post`: uncacheable if that was asked
/// for, and to its physical address unless it was mapped before.
pub open spec fn page_ensured(p: EnsurePlan, phys: int, env: Env, post: Env) -> bool {
    let va = p.offset + phys;
    let before = leaf(env.mem, p.root, 4, va);
    let now = leaf(post.mem, p.root, 4, va);
    &&& now is Some
    &&& p.uncached ==> now->0.entry & NO_CACHE != 0
    &&& translated(now, va) == if before is Some {
        translated(before, va)
    } else {
        Some(phys as u64)
    }
}

/// Addresses of different pages of a range have entries of their own.
proof fn lemma_pages_apart(offset: int, phys: int, end: int, a: int, b: int)
    requires
        0 <= offset,
        offset % 4096 == 0,
        canonical_run(offset + phys, end - phys),
        0 <= phys <= a < b < end,
        a % 4096 == 0,
        b % 4096 == 0,
    ensures
        !same_entry(offset + a, offset + b, 1),
        !same_entry(offset + b, offset + a, 1),
{
    let x = offset + a;
    let y = offset + b;
    assert(0 < y - x < 0x1_0000_0000_0000);
    lemma_low_page(x);
    lemma_low_page(y);
    let n = y / 0x1_0000_0000_0000 - x / 0x1_0000_0000_0000;
    if low48(x) / 4096 == low48(y) / 4096 {
        assert(y - x == 0x1_0000_0000_0000 * n);
    }
}

/// The low part of a page's address is one of a page.
proof fn lemma_low_page(x: int)
    requires
        0 <= x,
        x % 4096 == 0,
    ensures
        low48(x) == 4096 * (low48(x) / 4096),
        x == 0x1_0000_0000_0000 * (x / 0x1_0000_0000_0000) + low48(x),
{
    let q = x / 0x1_0000_0000_0000;
    assert(low48(x) == 4096 * (x / 4096 - 0x10_0000_0000 * q));
}

/// The first page is made accessible, and the others stay as they are.
#[verifier::spinoff_prover]
proof fn lemma_first_page(p: EnsurePlan, phys: int, forced: Seq<int>, env: Env) -> (r: (Seq<int>, Env))
    requires
        ensurable(p, phys, env),
        phys < p.end,
        ensured(p, phys, forced, env).0 is Mapped,
    ensures
        ensured(p, phys, forced, env) == ensured(p, phys + 4096, r.0, r.1),
        ensurable(p, phys + 4096, r.1),
        page_ensured(p, phys, env, r.1),
        forall|vb: int|
            0 <= vb && !same_entry(p.offset + phys, vb, 1) ==> alike(
                leaf(env.mem, p.root, 4, vb),
                #[trigger] leaf(r.1.mem, p.root, 4, vb),
                vb,
            ),
{
    let va = (p.offset + phys) as u64;
    let before = leaf(env.mem, p.root, 4, va as int);
    law_translation_is_the_leaf(env, p.root, 4, va);
    reveal_with_fuel(ensured, 3);
    reveal_with_fuel(page_found, 3);
    reveal_with_fuel(page_flagged, 3);
    reveal_with_fuel(page_done, 3);
    assert(table_at(env.mem, p.root, 4, va as int, 4) == Some(p.root));
    lemma_attribute_bits(p.flags, phys as u64);
    assert(is_frame(phys));
    let r: (Seq<int>, Env) = match before {
        None => {
            let entry = (phys as u64) | p.flags | PRESENT;
            let w = walk(Goal::MapTo { entry }, env, p.root, 4, va);
            assert(w.0 is Changed);
            law_map_page(env, p.root, p.root, 4, va, entry, w.1);
            (forced, w.1)
        },
        Some(l) => {
            lemma_attribute_bits(l.entry, phys as u64);
            if p.uncached && !uncacheable(leaf_flags(before)) {
                let w = walk(Goal::Uncache, env, p.root, 4, va);
                assert(w.0 is Changed);
                law_set_page_uncached(env, p.root, p.root, 4, va, w.1);
                (forced.push(phys), w.1)
            } else {
                (forced, env)
            }
        },
    };
    assert forall|a: int| phys + 4096 <= a < p.end && a % 4096 == 0 implies splittable(
        #[trigger] leaf(r.1.mem, p.root, 4, p.offset + a),
    ) by {
        assert(splittable(leaf(env.mem, p.root, 4, p.offset + a)));
        lemma_pages_apart(p.offset, phys, p.end, phys, a);
    }
    r
}

/// Attributes that a split carries over include whether a page is cacheable.
proof fn lemma_alike_uncached(e: u64, f: u64)
    by (bit_vector)
    requires
        e & 0x8000_0000_0000_011f == f & 0x8000_0000_0000_011f,
    ensures
        e & 0x10 == f & 0x10,
{
}

/// Pages outside a range keep their address and attributes while it is made
/// accessible.
proof fn lemma_outside_range(p: EnsurePlan, phys: int, forced: Seq<int>, env: Env, vb: int)
    requires
        ensurable(p, phys, env),
        ensured(p, phys, forced, env).0 is Mapped,
        0 <= vb,
        forall|a: int|
            phys <= a < p.end && a % 4096 == 0 ==> !#[trigger] same_entry(p.offset + a, vb, 1),
    ensures
        alike(
            leaf(env.mem, p.root, 4, vb),
            leaf(ensured(p, phys, forced, env).2.mem, p.root, 4, vb),
            vb,
        ),
    decreases p.end - phys,
{
    if phys < p.end {
        let r = lemma_first_page(p, phys, forced, env);
        assert(!same_entry(p.offset + phys, vb, 1));
        lemma_outside_range(p, phys + 4096, r.0, r.1, vb);
    }
}

/// Every page of a range that was made accessible is mapped, and uncacheable
/// if that was asked for: a page that was not mapped is mapped to its physical
/// address, and one that was keeps its address. Pages outside the range keep
/// their address and attributes.
pub proof fn law_ensured_range(p: EnsurePlan, phys: int, forced: Seq<int>, env: Env, at: int, vb: int)
    requires
        ensurable(p, phys, env),
        ensured(p, phys, forced, env).0 is Mapped,
    ensures
        ({
            let post = ensured(p, phys, forced, env).2;
            &&& phys <= at < p.end && at % 4096 == 0 ==> page_ensured(p, at, env, post)
            &&& 0 <= vb && (forall|a: int|
                phys <= a < p.end && a % 4096 == 0 ==> !#[trigger] same_entry(p.offset + a, vb, 1))
                ==> alike(leaf(env.mem, p.root, 4, vb), leaf(post.mem, p.root, 4, vb), vb)
        }),
    decreases p.end - phys,
{
    let post = ensured(p, phys, forced, env).2;
    if phys <= at < p.end && at % 4096 == 0 {
        let r = lemma_first_page(p, phys, forced, env);
        let va = p.offset + at;
        if at == phys {
            assert forall|a: int| phys + 4096 <= a < p.end && a % 4096 == 0 implies !#[trigger] same_entry(
                p.offset + a,
                va,
                1,
            ) by {
                lemma_pages_apart(p.offset, phys, p.end, phys, a);
            }
            lemma_outside_range(p, phys + 4096, r.0, r.1, va);
            lemma_alike_uncached(
                leaf(r.1.mem, p.root, 4, va)->0.entry,
                leaf(post.mem, p.root, 4, va)->0.entry,
            );
        } else {
            lemma_pages_apart(p.offset, phys, p.end, phys, at);
            law_ensured_range(p, phys + 4096, r.0, r.1, at, vb);
        }
    }
    if 0 <= vb && (forall|a: int|
        phys <= a < p.end && a % 4096 == 0 ==> !#[trigger] same_entry(p.offset + a, vb, 1)) {
        lemma_outside_range(p, phys, forced, env, vb);
    }
}

/// A walk takes frames from the front only.
proof fn lemma_walk_takes(goal: Goal, env: Env, table: int, level: int, va: u64) -> (k: int)
    ensures
        0 <= k <= env.frames.len(),
        walk(goal, env, table, level, va).1.frames == env.frames.skip(k),
    decreases level,
{
    reveal_with_fuel(walk, 4);
    reveal_with_fuel(make, 4);
    reveal_with_fuel(link, 4);
    assert(env.frames.skip(0) =~= env.frames);
    if level < 1 || level > 4 {
        0
    } else {
        let at = slot(table, va as int, level);
        let e = env.mem[at];
        match decision(goal, level, e, va) {
            Decision::Into(next) => if level > 1 {
                lemma_walk_takes(goal, env, next as int, level - 1, va)
            } else {
                0
            },
            Decision::Make => {
                let taken = env.frame_taken();
                let one: int = if env.frames.len() > 0 {
                    1
                } else {
                    0
                };
                assert(taken.frames =~= env.frames.skip(one));
                match env.frame() {
                    None => one,
                    Some(f) => {
                        let linked = taken.fill(f as int, made_entries(goal, level, e)).write(
                            at,
                            f | TABLE_FLAGS,
                        );
                        if level > 1 {
                            let k = lemma_walk_takes(goal, linked, f as int, level - 1, va);
                            assert(linked.frames.skip(k) =~= env.frames.skip(one + k));
                            one + k
                        } else {
                            one
                        }
                    },
                }
            },
            _ => 0,
        }
    }
}

/// The page is mapped to one of the allocator's frames, with the flags of heap
/// pages.
pub open spec fn heap_leaf(env: Env, l: Option<Leaf>) -> bool {
    &&& l is Some
    &&& l->0.level == 1
    &&& exists|k: int|
        0 <= k < env.frames.len() && (#[trigger] env.frames[k]) is Some && is_frame(
            env.frames[k]->0 as int,
        ) && l->0.entry == env.frames[k]->0 | HEAP_FLAGS | PRESENT
}

/// Pages that are not mapped, to be mapped in page tables that are a tree.
pub open spec fn mappable(env: Env, root: int, va: int, left: nat) -> bool {
    &&& is_frame(root)
    &&& tree(env.mem, root)
    &&& fresh(env, root)
    &&& 0 <= va
    &&& va % 4096 == 0
    &&& canonical_run(va, 4096 * (left as int))
    &&& forall|k: int| 0 <= k < left ==> #[trigger] leaf(env.mem, root, 4, va + 4096 * k) is None
}

/// The first of the pages is mapped to the first of the frames, from which `n`
/// more are taken, and the others stay as they are.
#[verifier::spinoff_prover]
proof fn lemma_heap_step(env: Env, root: int, va: int, left: nat) -> (r: (Env, int))
    requires
        mappable(env, root, va, left),
        left > 0,
        heap_mapped(env, root, va, left).0 is Mapped,
    ensures
        heap_mapped(env, root, va, left) == heap_mapped(r.0, root, va + 4096, (left - 1) as nat),
        mappable(r.0, root, va + 4096, (left - 1) as nat),
        env.frames.len() > 0,
        env.frames[0] is Some,
        leaf(r.0.mem, root, 4, va) == Some(
            Leaf { level: 1, entry: env.frames[0]->0 | HEAP_FLAGS | PRESENT },
        ),
        forall|vb: int|
            0 <= vb && !same_entry(va, vb, 1) ==> #[trigger] leaf(r.0.mem, root, 4, vb) == leaf(
                env.mem,
                root,
                4,
                vb,
            ),
        0 <= r.1,
        r.0.frames.len() + r.1 + 1 <= env.frames.len(),
        forall|k: int|
            0 <= k < r.0.frames.len() ==> #[trigger] r.0.frames[k] == env.frames[k + r.1 + 1],
{
    reveal_with_fuel(heap_mapped, 3);
    reveal_with_fuel(heap_page_done, 3);
    let end = va + 4096 * left;
    let frame = env.frame()->0;
    let taken = env.frame_taken();
    assert(env.frames[0] == Some(frame));
    assert forall|n: int| 0 <= n < taken.frames.len() implies #[trigger] taken.frames[n] == env.frames[n
        + 1] by {}
    let entry = frame | HEAP_FLAGS | PRESENT;
    lemma_flag_bits();
    lemma_attribute_bits(HEAP_FLAGS, frame);
    assert(leaf(env.mem, root, 4, va + 4096 * 0) is None);
    assert(table_at(taken.mem, root, 4, va, 4) == Some(root));
    let w = walk(Goal::MapTo { entry }, taken, root, 4, va as u64);
    assert(w.0 is Changed);
    law_map_page(taken, root, root, 4, va as u64, entry, w.1);
    let mid = w.1;
    let n = lemma_walk_takes(Goal::MapTo { entry }, taken, root, 4, va as u64);
    assert forall|k: int| 0 <= k < mid.frames.len() implies #[trigger] mid.frames[k] == env.frames[k + n
        + 1] by {}
    let rest = (left - 1) as nat;
    let next = va + 4096;
    assert forall|k: int| 0 <= k < rest implies #[trigger] leaf(mid.mem, root, 4, next + 4096 * k) is None by {
        lemma_pages_apart(0, va, end, va, next + 4096 * k);
        assert(leaf(env.mem, root, 4, va + 4096 * (k + 1)) is None);
    }
    (mid, n)
}

/// Pages outside the run are mapped as before.
proof fn lemma_heap_outside(env: Env, root: int, va: int, left: nat, vb: int)
    requires
        mappable(env, root, va, left),
        heap_mapped(env, root, va, left).0 is Mapped,
        0 <= vb,
        forall|k: int| 0 <= k < left ==> !#[trigger] same_entry(va + 4096 * k, vb, 1),
    ensures
        leaf(heap_mapped(env, root, va, left).1.mem, root, 4, vb) == leaf(env.mem, root, 4, vb),
    decreases left,
{
    if left > 0 {
        let r = lemma_heap_step(env, root, va, left);
        let rest = (left - 1) as nat;
        let next = va + 4096;
        assert(!same_entry(va + 4096 * 0, vb, 1));
        assert forall|k: int| 0 <= k < rest implies !#[trigger] same_entry(next + 4096 * k, vb, 1) by {
            assert(!same_entry(va + 4096 * (k + 1), vb, 1));
        }
        lemma_heap_outside(r.0, root, next, rest, vb);
    }
}

/// The first page keeps its entry while the others are mapped.
proof fn lemma_heap_first(env: Env, root: int, va: int, left: nat)
    requires
        mappable(env, root, va, left),
        left > 0,
        heap_mapped(env, root, va, left).0 is Mapped,
    ensures
        env.frames.len() > 0,
        env.frames[0] is Some,
        leaf(heap_mapped(env, root, va, left).1.mem, root, 4, va) == Some(
            Leaf { level: 1, entry: env.frames[0]->0 | HEAP_FLAGS | PRESENT },
        ),
{
    let r = lemma_heap_step(env, root, va, left);
    let rest = (left - 1) as nat;
    let next = va + 4096;
    assert forall|k: int| 0 <= k < rest implies !#[trigger] same_entry(next + 4096 * k, va, 1) by {
        lemma_pages_apart(0, va, va + 4096 * left, va, next + 4096 * k);
    }
    lemma_heap_outside(r.0, root, next, rest, va);
}

/// Every page of the run is mapped to one of the frames.
proof fn lemma_heap_leaf(env: Env, root: int, va: int, left: nat, i: int)
    requires
        mappable(env, root, va, left),
        heap_mapped(env, root, va, left).0 is Mapped,
        0 <= i < left,
    ensures
        heap_leaf(env, leaf(heap_mapped(env, root, va, left).1.mem, root, 4, va + 4096 * i)),
    decreases left,
{
    if i == 0 {
        lemma_heap_first(env, root, va, left);
        assert(is_frame(env.frames[0]->0 as int));
    } else {
        let r = lemma_heap_step(env, root, va, left);
        let rest = (left - 1) as nat;
        let next = va + 4096;
        lemma_heap_leaf(r.0, root, next, rest, i - 1);
        assert(next + 4096 * (i - 1) == va + 4096 * i);
        let post = heap_mapped(env, root, va, left).1;
        lemma_later_leaf(env, r.0, r.1 + 1, leaf(post.mem, root, 4, va + 4096 * i));
    }
}

/// Different pages of the run are mapped to different frames.
proof fn lemma_heap_distinct(env: Env, root: int, va: int, left: nat, i: int, j: int)
    requires
        mappable(env, root, va, left),
        heap_mapped(env, root, va, left).0 is Mapped,
        0 <= i < j < left,
    ensures
        ({
            let post = heap_mapped(env, root, va, left).1;
            address(leaf(post.mem, root, 4, va + 4096 * i)->0.entry) != address(
                leaf(post.mem, root, 4, va + 4096 * j)->0.entry,
            )
        }),
    decreases left,
{
    let r = lemma_heap_step(env, root, va, left);
    let rest = (left - 1) as nat;
    let next = va + 4096;
    let mid = r.0;
    assert(next + 4096 * (i - 1) == va + 4096 * i);
    assert(next + 4096 * (j - 1) == va + 4096 * j);
    if i > 0 {
        lemma_heap_distinct(mid, root, next, rest, i - 1, j - 1);
    } else {
        lemma_heap_first(env, root, va, left);
        lemma_heap_leaf(mid, root, next, rest, j - 1);
        let b = leaf(heap_mapped(mid, root, next, rest).1.mem, root, 4, next + 4096 * (j - 1));
        let k = choose|k: int|
            0 <= k < mid.frames.len() && (#[trigger] mid.frames[k]) is Some && is_frame(
                mid.frames[k]->0 as int,
            ) && b->0.entry == mid.frames[k]->0 | HEAP_FLAGS | PRESENT;
        assert(env.frames[0] != env.frames[k + r.1 + 1]);
        lemma_flag_bits();
        lemma_attribute_bits(HEAP_FLAGS, env.frames[0]->0);
        lemma_attribute_bits(HEAP_FLAGS, mid.frames[k]->0);
        assert(is_frame(env.frames[0]->0 as int));
    }
}

/// Heap pages are mapped, each to a frame of its own, and every other page is
/// mapped as before.
pub proof fn law_heap_pages(env: Env, root: int, va: int, left: nat, i: int, j: int, vb: int)
    requires
        mappable(env, root, va, left),
        heap_mapped(env, root, va, left).0 is Mapped,
    ensures
        ({
            let post = heap_mapped(env, root, va, left).1;
            let a = leaf(post.mem, root, 4, va + 4096 * i);
            let b = leaf(post.mem, root, 4, va + 4096 * j);
            &&& 0 <= i < left ==> heap_leaf(env, a)
            &&& 0 <= i < j < left ==> address(a->0.entry) != address(b->0.entry)
            &&& 0 <= vb && (forall|k: int|
                0 <= k < left ==> !#[trigger] same_entry(va + 4096 * k, vb, 1)) ==> leaf(
                post.mem,
                root,
                4,
                vb,
            ) == leaf(env.mem, root, 4, vb)
        }),
{
    if 0 <= i < left {
        lemma_heap_leaf(env, root, va, left, i);
    }
    if 0 <= i < j < left {
        lemma_heap_distinct(env, root, va, left, i, j);
    }
    if 0 <= vb && (forall|k: int| 0 <= k < left ==> !#[trigger] same_entry(va + 4096 * k, vb, 1)) {
        lemma_heap_outside(env, root, va, left, vb);
    }
}

/// What holds a later frame of the allocator holds one of the allocator's.
proof fn lemma_later_leaf(env: Env, mid: Env, n: int, l: Option<Leaf>)
    requires
        0 <= n,
        heap_leaf(mid, l),
        mid.frames.len() + n <= env.frames.len(),
        forall|k: int| 0 <= k < mid.frames.len() ==> #[trigger] mid.frames[k] == env.frames[k + n],
    ensures
        heap_leaf(env, l),
{
    let k = choose|k: int|
        0 <= k < mid.frames.len() && (#[trigger] mid.frames[k]) is Some && is_frame(
            mid.frames[k]->0 as int,
        ) && l->0.entry == mid.frames[k]->0 | HEAP_FLAGS | PRESENT;
    assert(env.frames[k + n] is Some);
}

proof fn lemma_usable_prefix(a: Seq<MemoryRegion>, x: MemoryRegion, n: int)
    requires
        n <= a.len(),
    ensures
        usable_among(a.push(x), n) == usable_among(a, n),
    decreases n,
{
    if n > 0 {
        lemma_usable_prefix(a, x, n - 1);
        assert(a.push(x)[n - 1] == a[n - 1]);
    }
}

/// The usable memory is listed in the order of the regions: no region, no memory; a usable region
/// adds its range at the end, and an unusable one adds nothing.
pub proof fn law_usable_memory(a: Seq<MemoryRegion>, x: MemoryRegion)
    ensures
        all_usable(Seq::empty()).len() == 0,
        !x.usable ==> all_usable(a.push(x)) == all_usable(a),
        x.usable ==> all_usable(a.push(x)).drop_last() == all_usable(a),
        x.usable ==> all_usable(a.push(x)).last() == (PhysRange { start: x.start, end: x.end }),
{
    lemma_usable_prefix(a, x, a.len() as int);
}

/// The first sixty-four usable ranges are taken, or as many as there are.
pub proof fn law_taken_memory(regions: Seq<MemoryRegion>)
    ensures
        usable_taken(regions).is_prefix_of(all_usable(regions)),
        all_usable(regions).len() <= 64 ==> usable_taken(regions).len() == all_usable(regions).len(),
        all_usable(regions).len() > 64 ==> usable_taken(regions).len() == 64,
{
}

/// The first mebibyte is kept from use.
pub proof fn law_low_memory(pa: int)
    ensures
        (0 <= pa < 0x10_0000) <==> (exists|k: int|
            0 <= k < low_memory().len() && (#[trigger] low_memory()[k]).start <= pa
                < low_memory()[k].end),
{
    if 0 <= pa < 0x10_0000 {
        let k: int = 0;
        assert(low_memory()[k].start <= pa < low_memory()[k].end);
    }
}

/// A user page is present and open to user code, is writable exactly if asked, and is barred from
/// execution exactly if that was not asked for. Device ranges are not for execution, and not cached
/// exactly if asked.
pub proof fn law_flags_asked_for(writable: bool, executable: bool)
    ensures
        user_flags(writable, executable) == 1 + (if writable { 2int } else { 0 }) + 4 + (
        if executable {
            0int
        } else {
            0x8000_0000_0000_0000
        }),
        range_flags(writable) == 0x8000_0000_0000_0000 + 1 + 2 + (if writable {
            0x18int
        } else {
            0
        }),
        HEAP_FLAGS == 0x8000_0000_0000_0000 + 1 + 2,
{
}

/// A page's attributes are bit 2 of its flags, that it is open to user code, and bit 1, that it can
/// be written; bit 4 says that it is not cached. A page that is not mapped has none.
pub proof fn law_attributes_of_flags(f: u64)
    ensures
        attributes(None) is None,
        attributes(Some(f)) == Some((f & 0x4 != 0, f & 0x2 != 0)),
        uncacheable(Some(f)) <==> f & 0x10 != 0,
        !uncacheable(None),
{
}

/// The heap begins at its own place with 4 MiB and grows by 2 MiB at a time.
pub proof fn law_heap_sizes()
    ensures
        HEAP_START == 0xFFFF_9000_0000_0000,
        INITIAL_HEAP_SIZE == 4 * 0x10_0000,
        HEAP_GROW_CHUNK == 2 * 0x10_0000,
{
}

/// Pages are forced out of the cache only where that was asked for, and only pages of the range, in
/// their order; what was forced before stays listed.
pub proof fn law_forced_pages(p: EnsurePlan, phys: int, forced: Seq<int>, env: Env, i: int)
    requires
        phys % 4096 == 0,
    ensures
        ({
            let now = ensured(p, phys, forced, env).1;
            &&& forced.is_prefix_of(now)
            &&& !p.uncached ==> now == forced
            &&& forced.len() <= i < now.len() ==> phys <= now[i] < p.end && now[i] % 4096 == 0
            &&& forced.len() < i < now.len() ==> now[i - 1] < now[i]
        }),
    decreases if phys < p.end { p.end - phys } else { 0 },
{
    reveal_with_fuel(ensured, 2);
    reveal_with_fuel(page_found, 2);
    reveal_with_fuel(page_flagged, 2);
    reveal_with_fuel(page_done, 2);
    if phys < p.end {
        let va = (p.offset + phys) as u64;
        let w = walk(Goal::Translate, env, p.root, 4, va);
        if w.0 == PageResult::Address(None) {
            let m = walk(
                Goal::MapTo { entry: (phys as u64) | p.flags | PRESENT },
                w.1,
                p.root,
                4,
                va,
            );
            law_forced_pages(p, phys + 4096, forced, m.1, i);
        } else if p.uncached {
            let q = walk(Goal::Query, w.1, p.root, 4, va);
            let u = walk(Goal::Uncache, q.1, p.root, 4, va);
            law_forced_pages(p, phys + 4096, forced, q.1, i);
            law_forced_pages(p, phys + 4096, forced.push(phys), u.1, i);
            let more = ensured(p, phys + 4096, forced.push(phys), u.1).1;
            assert(forced.push(phys)[forced.len() as int] == phys);
            assert(more[forced.len() as int] == phys);
        } else {
            law_forced_pages(p, phys + 4096, forced, w.1, i);
        }
    }
}

} // verus!
