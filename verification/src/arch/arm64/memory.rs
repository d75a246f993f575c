//! Memory on this machine: the device tree's RAM, the identity mapping of
//! physical memory, and the kernel heap.

use vstd::prelude::*;
use crate::bits::ceil_to;
use crate::io::IoOp;
use crate::memory::frame_allocator::{
    addressable, built_from, header_from, FrameAllocator, PhysRange, FRAME_SIZE,
};
use crate::memory::{summable, total_bytes};

verus! {

/// Size of the first heap; it grows in place while the frames right after it
/// are free.
pub const HEAP_INITIAL: u64 = 0x100_0000;

/// The heap grows by multiples of this.
pub const HEAP_GROW_CHUNK: u64 = 0x20_0000;

/// How many RAM banks are taken.
pub const MAX_USABLE: usize = 8;

/// How many reserved ranges there are at most.
pub const MAX_RESERVED: usize = 10;

/// Ranges with a size, of the first `n` in `list`, after those in `first` and
/// up to `max` in all.
pub open spec fn ranges_of(first: Seq<PhysRange>, list: Seq<(u64, u64)>, n: int, max: nat) -> Seq<
    PhysRange,
>
    decreases n,
{
    if n <= 0 {
        first
    } else {
        let before = ranges_of(first, list, n - 1, max);
        let (base, size) = list[n - 1];
        if size > 0 && before.len() < max {
            before.push(PhysRange { start: base, end: (base + size) as u64 })
        } else {
            before
        }
    }
}

/// All ranges end inside the addresses.
pub open spec fn ends_fit(list: Seq<(u64, u64)>) -> bool {
    forall|i: int| 0 <= i < list.len() ==> (#[trigger] list[i]).0 + list[i].1 <= u64::MAX
}

fn push_ranges(out: &mut Vec<PhysRange>, list: &[(u64, u64)], max: usize)
    requires
        ends_fit(list@),
    ensures
        final(out)@ == ranges_of(old(out)@, list@, list@.len() as int, max as nat),
{
    let ghost first = out@;
    let mut i: usize = 0;
    while i < list.len()
        invariant
            i <= list@.len(),
            ends_fit(list@),
            out@ == ranges_of(first, list@, i as int, max as nat),
        decreases list@.len() - i,
    {
        let (base, size) = list[i];
        assert(list@[i as int].0 + list@[i as int].1 <= u64::MAX);
        if size > 0 && out.len() < max {
            out.push(PhysRange { start: base, end: base + size });
        }
        i += 1;
    }
}

/// The lowest base of the first `n` banks; `none` if there are none.
pub open spec fn lowest_base(ram: Seq<(u64, u64)>, n: int, none: u64) -> u64
    decreases n,
{
    if n <= 0 {
        none
    } else if n == 1 || ram[n - 1].0 < lowest_base(ram, n - 1, none) {
        ram[n - 1].0
    } else {
        lowest_base(ram, n - 1, none)
    }
}

/// Where the kernel's reserved range begins: at the start of RAM if the
/// kernel lies within 2 MiB of it, else at the kernel.
pub open spec fn low_end(ram: Seq<(u64, u64)>, kernel_start: u64) -> u64 {
    let start = lowest_base(ram, ram.len() as int, kernel_start);
    if start >= kernel_start {
        kernel_start
    } else if kernel_start - start <= 0x20_0000 {
        start
    } else {
        kernel_start
    }
}

/// The reserved ranges: the kernel, with what lies before it near the start
/// of RAM, the device tree, and what the tree reserves.
pub open spec fn reserved_ranges(
    ram: Seq<(u64, u64)>,
    memreserve: Seq<(u64, u64)>,
    dtb: u64,
    dtb_size: u64,
    kernel_start: u64,
    kernel_end: u64,
) -> Seq<PhysRange> {
    ranges_of(
        seq![
            PhysRange { start: low_end(ram, kernel_start), end: kernel_end },
            PhysRange { start: dtb, end: (dtb + dtb_size) as u64 },
        ],
        memreserve,
        memreserve.len() as int,
        MAX_RESERVED as nat,
    )
}

/// The RAM that is handed out: the first banks with a size.
pub open spec fn usable_ranges(ram: Seq<(u64, u64)>) -> Seq<PhysRange> {
    ranges_of(Seq::empty(), ram, ram.len() as int, MAX_USABLE as nat)
}

/// Hands the RAM to the frame allocator. Also gives the free and the usable
/// memory in MiB.
pub fn init(
    ram: &[(u64, u64)],
    memreserve: &[(u64, u64)],
    dtb: u64,
    dtb_size: u64,
    kernel_start: u64,
    kernel_end: u64,
) -> (r: (FrameAllocator, u64, u64))
    requires
        ends_fit(ram@),
        ends_fit(memreserve@),
        dtb + dtb_size <= u64::MAX,
        addressable(usable_ranges(ram@), kernel_end),
        header_from(usable_ranges(ram@), kernel_end, 0) is Some,
        summable(usable_ranges(ram@)),
    ensures
        built_from(
            r.0,
            usable_ranges(ram@),
            reserved_ranges(ram@, memreserve@, dtb, dtb_size, kernel_start, kernel_end),
            kernel_end,
        ),
        r.1 == r.0@.free() * 4096 / 0x10_0000,
        r.2 == total_bytes(usable_ranges(ram@), usable_ranges(ram@).len() as int) / 0x10_0000,
{
    let mut usable: Vec<PhysRange> = Vec::new();
    push_ranges(&mut usable, ram, MAX_USABLE);
    let mut start: u64 = kernel_start;
    let mut i: usize = 0;
    while i < ram.len()
        invariant
            i <= ram@.len(),
            start == lowest_base(ram@, i as int, kernel_start),
        decreases ram@.len() - i,
    {
        let base: u64 = ram[i].0;
        if i == 0 || base < start {
            start = base;
        }
        i += 1;
    }
    let low: u64 = if start >= kernel_start {
        kernel_start
    } else if kernel_start - start <= 0x20_0000 {
        start
    } else {
        kernel_start
    };
    let mut reserved: Vec<PhysRange> = Vec::new();
    reserved.push(PhysRange { start: low, end: kernel_end });
    reserved.push(PhysRange { start: dtb, end: dtb + dtb_size });
    assert(reserved@ =~= seq![
        PhysRange { start: low, end: kernel_end },
        PhysRange { start: dtb, end: (dtb + dtb_size) as u64 },
    ]);
    push_ranges(&mut reserved, memreserve, MAX_RESERVED);
    crate::memory::init(usable.as_slice(), reserved.as_slice(), kernel_end)
}

/// Where the kernel sees a physical address: physical memory is mapped to
/// itself.
pub fn phys_to_virt(phys: u64) -> (r: u64)
    ensures
        r == phys,
{
    phys
}

/// Carves the first heap from contiguous frames, and gives its range; `None`
/// where there are not so many.
pub fn heap_init(fa: &mut FrameAllocator) -> (r: Option<(u64, u64)>)
    requires
        old(fa).inv(),
    ensures
        final(fa).inv(),
        match r {
            Some((start, end)) => {
                let first = start as int / 4096;
                &&& start == first * 4096
                &&& end == start + HEAP_INITIAL
                &&& old(fa)@.is_free_run(first, 4096)
                &&& forall|s: int| 0 <= s < first ==> !#[trigger] old(fa)@.is_free_run(s, 4096)
                &&& final(fa)@ == old(fa)@.with_used(first, 4096)
            },
            None => {
                &&& forall|s: int| 0 <= s ==> !#[trigger] old(fa)@.is_free_run(s, 4096)
                &&& final(fa)@ == old(fa)@
            },
        },
{
    match fa.allocate_contiguous((HEAP_INITIAL / FRAME_SIZE) as usize) {
        Some(pa) => {
            proof {
                old(fa)@.lemma_run_bounds(*old(fa), pa as int / 4096, 4096);
            }
            Some((pa, pa + HEAP_INITIAL))
        },
        None => None,
    }
}

/// Rounding up to whole chunks gives whole pages.
proof fn lemma_chunks(needed: int)
    requires
        0 <= needed,
    ensures
        ceil_to(needed, HEAP_GROW_CHUNK as int) == (needed + HEAP_GROW_CHUNK - 1)
            / HEAP_GROW_CHUNK as int * HEAP_GROW_CHUNK,
        needed <= ceil_to(needed, HEAP_GROW_CHUNK as int) < needed + HEAP_GROW_CHUNK,
{
    let q = (needed + 0x1F_FFFF) / 0x20_0000;
    assert(ceil_to(needed, 0x20_0000) == q * 0x20_0000);
}

/// Grows the heap in place by at least `needed` bytes: the frames right after
/// `end` are claimed. Gives the bytes that are added; `None` where the frames
/// are not free, and then none is claimed.
pub fn heap_extend(end: u64, needed: u64, fa: &mut FrameAllocator) -> (r: Option<u64>)
    requires
        old(fa).inv(),
        needed + HEAP_GROW_CHUNK <= u64::MAX,
        end as int / 4096 + ceil_to(needed as int, HEAP_GROW_CHUNK as int) / 4096 <= usize::MAX,
    ensures
        final(fa).inv(),
        ({
            let grow = ceil_to(needed as int, HEAP_GROW_CHUNK as int);
            if old(fa)@.is_free_run(end as int / 4096, grow / 4096) {
                &&& r == Some(grow as u64)
                &&& final(fa)@ == old(fa)@.with_used(end as int / 4096, grow / 4096)
            } else {
                &&& r is None
                &&& final(fa)@ == old(fa)@
            }
        }),
{
    proof {
        lemma_chunks(needed as int);
    }
    let grow: u64 = (needed + HEAP_GROW_CHUNK - 1) / HEAP_GROW_CHUNK * HEAP_GROW_CHUNK;
    if fa.claim_range(end, (grow / FRAME_SIZE) as usize) {
        Some(grow)
    } else {
        None
    }
}

/// Opens user memory to the kernel: nothing to do, for the kernel may touch
/// it.
pub fn user_access_begin() -> (r: Vec<IoOp>)
    ensures
        r@ == Seq::<IoOp>::empty(),
{
    Vec::new()
}

/// Closes user memory again: nothing to do.
pub fn user_access_end() -> (r: Vec<IoOp>)
    ensures
        r@ == Seq::<IoOp>::empty(),
{
    Vec::new()
}

proof fn lemma_ranges_prefix(
    first: Seq<PhysRange>,
    a: Seq<(u64, u64)>,
    x: (u64, u64),
    n: int,
    max: nat,
)
    requires
        n <= a.len(),
    ensures
        ranges_of(first, a.push(x), n, max) == ranges_of(first, a, n, max),
    decreases n,
{
    if n > 0 {
        lemma_ranges_prefix(first, a, x, n - 1, max);
        assert(a.push(x)[n - 1] == a[n - 1]);
    }
}

/// A bank adds the range from its base to its end after the others, where it is not empty and there
/// is room, and nothing otherwise. Without banks there are the ranges that were there.
pub proof fn law_ranges_of_banks(
    first: Seq<PhysRange>,
    a: Seq<(u64, u64)>,
    x: (u64, u64),
    max: nat,
)
    requires
        x.0 + x.1 <= u64::MAX,
    ensures
        ({
            let before = ranges_of(first, a, a.len() as int, max);
            let after = ranges_of(first, a.push(x), a.len() as int + 1, max);
            &&& a.len() == 0 ==> before == first
            &&& x.1 > 0 && before.len() < max ==> after.len() == before.len() + 1
                && before.is_prefix_of(after) && after.last().start == x.0 && after.last().end
                - after.last().start == x.1
            &&& x.1 == 0 || before.len() >= max ==> after == before
        }),
{
    lemma_ranges_prefix(first, a, x, a.len() as int, max);
}

/// The lowest base is one of the banks' and none is lower.
pub proof fn law_lowest_bank(ram: Seq<(u64, u64)>, n: int, none: u64, i: int)
    requires
        n <= ram.len(),
    ensures
        n <= 0 ==> lowest_base(ram, n, none) == none,
        0 <= i < n ==> lowest_base(ram, n, none) <= ram[i].0,
        n > 0 ==> exists|k: int| 0 <= k < n && (#[trigger] ram[k]).0 == lowest_base(ram, n, none),
    decreases n,
{
    if n > 0 {
        law_lowest_bank(ram, n - 1, none, i);
        if lowest_base(ram, n, none) == ram[n - 1].0 {
            assert(ram[n - 1].0 == lowest_base(ram, n, none));
        }
    }
}

/// What lies under the kernel is kept with it where it is at most 2 MiB of memory, and is free
/// otherwise.
pub proof fn law_memory_below_the_kernel(ram: Seq<(u64, u64)>, kernel_start: u64)
    ensures
        ({
            let lowest = lowest_base(ram, ram.len() as int, kernel_start);
            let low = low_end(ram, kernel_start);
            &&& low <= kernel_start <= low + 0x20_0000
            &&& low == kernel_start || low == lowest
            &&& lowest <= kernel_start <= lowest + 0x20_0000 ==> low == lowest
        }),
{
}

proof fn lemma_first_ranges_stay(first: Seq<PhysRange>, list: Seq<(u64, u64)>, n: int, max: nat)
    ensures
        first.is_prefix_of(ranges_of(first, list, n, max)),
        first.len() <= max ==> ranges_of(first, list, n, max).len() <= max,
    decreases n,
{
    if n > 0 {
        lemma_first_ranges_stay(first, list, n - 1, max);
    }
}

/// The kernel and the device tree are always kept from use, before what the tree keeps, and no more
/// than ten ranges are.
pub proof fn law_kernel_and_tree_are_kept(
    ram: Seq<(u64, u64)>,
    memreserve: Seq<(u64, u64)>,
    dtb: u64,
    dtb_size: u64,
    kernel_start: u64,
    kernel_end: u64,
)
    requires
        dtb + dtb_size <= u64::MAX,
    ensures
        ({
            let r = reserved_ranges(ram, memreserve, dtb, dtb_size, kernel_start, kernel_end);
            &&& 2 <= r.len() <= 10
            &&& r[0].start <= kernel_start
            &&& r[0].end == kernel_end
            &&& r[1].start == dtb
            &&& r[1].end == dtb + dtb_size
        }),
        memreserve.len() == 0 ==> reserved_ranges(
            ram,
            memreserve,
            dtb,
            dtb_size,
            kernel_start,
            kernel_end,
        ).len() == 2,
        usable_ranges(ram) == ranges_of(Seq::empty(), ram, ram.len() as int, 8),
{
    let first = seq![
        PhysRange { start: low_end(ram, kernel_start), end: kernel_end },
        PhysRange { start: dtb, end: (dtb + dtb_size) as u64 },
    ];
    let n = memreserve.len() as int;
    lemma_first_ranges_stay(first, memreserve, n, MAX_RESERVED as nat);
    let r = ranges_of(first, memreserve, n, MAX_RESERVED as nat);
    assert(r[0] == first[0] && r[1] == first[1]);
}

/// The heap begins with 16 MiB and grows by 2 MiB at a time.
pub proof fn law_heap_sizes()
    ensures
        HEAP_INITIAL == 16 * 0x10_0000,
        HEAP_INITIAL == 4096 * 4096,
        HEAP_GROW_CHUNK == 2 * 0x10_0000,
{
}

} // verus!
