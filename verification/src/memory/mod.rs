//! Memory management: physical frames, page tables, kernel heap, user memory.
//!
//! The architecture supplies the usable RAM ranges, the physical to virtual
//! translation, the heap's backing region and the page-table operations.

pub mod frame_allocator;
pub mod heap;
pub mod page_table;
pub mod page_table_laws;
pub mod format_laws;
pub mod user;

use vstd::prelude::*;
use frame_allocator::{addressable, header_from, FrameAllocator, PhysRange, FRAME_SIZE};

verus! {

/// Bytes of the first `n` ranges.
pub open spec fn total_bytes(ranges: Seq<PhysRange>, n: int) -> int
    decreases n,
{
    if n <= 0 {
        0
    } else {
        total_bytes(ranges, n - 1) + ranges[n - 1].end - ranges[n - 1].start
    }
}

/// The sizes of the ranges, and their sum, are numbers of 64 bits.
pub open spec fn summable(ranges: Seq<PhysRange>) -> bool {
    &&& forall|i: int| 0 <= i < ranges.len() ==> (#[trigger] ranges[i]).start <= ranges[i].end
    &&& total_bytes(ranges, ranges.len() as int) <= u64::MAX
}

/// Sums of sizes grow.
proof fn lemma_total_grows(ranges: Seq<PhysRange>, m: int, n: int)
    requires
        0 <= m <= n <= ranges.len(),
        forall|i: int| 0 <= i < ranges.len() ==> (#[trigger] ranges[i]).start <= ranges[i].end,
    ensures
        0 <= total_bytes(ranges, m) <= total_bytes(ranges, n),
    decreases n,
{
    if m < n {
        lemma_total_grows(ranges, m, n - 1);
    } else if m > 0 {
        lemma_total_grows(ranges, m - 1, m - 1);
    }
}

/// Mebibytes in all ranges.
pub fn usable_mib(ranges: &[PhysRange]) -> (r: u64)
    requires
        summable(ranges@),
    ensures
        r == total_bytes(ranges@, ranges@.len() as int) / 0x10_0000,
{
    let mut sum: u64 = 0;
    let mut i: usize = 0;
    while i < ranges.len()
        invariant
            i <= ranges@.len(),
            summable(ranges@),
            sum == total_bytes(ranges@, i as int),
        decreases ranges@.len() - i,
    {
        proof {
            lemma_total_grows(ranges@, i as int + 1, ranges@.len() as int);
        }
        let r = ranges[i];
        sum = sum + (r.end - r.start);
        i += 1;
    }
    sum / 0x10_0000
}

/// Initializes the frame allocator from the RAM that the kernel may hand out
/// (`usable`) and the holes in it (`reserved`). Also gives the free and the
/// usable memory in MiB.
pub fn init(usable: &[PhysRange], reserved: &[PhysRange], min_addr: u64) -> (r: (
    FrameAllocator,
    u64,
    u64,
))
    requires
        addressable(usable@, min_addr),
        header_from(usable@, min_addr, 0) is Some,
        summable(usable@),
    ensures
        frame_allocator::built_from(r.0, usable@, reserved@, min_addr),
        r.1 == r.0@.free() * 4096 / 0x10_0000,
        r.2 == total_bytes(usable@, usable@.len() as int) / 0x10_0000,
{
    let fa = FrameAllocator::init(usable, reserved, min_addr);
    let free: usize = fa.free_count();
    proof {
        frame_allocator::lemma_count_bound(fa@.used, frame_allocator::FRAMES as int);
    }
    let free_mib: u64 = free as u64 * FRAME_SIZE / 0x10_0000;
    (fa, free_mib, usable_mib(usable))
}

/// The bytes of ranges add up.
pub proof fn law_ranges_add_up(ranges: Seq<PhysRange>, n: int)
    requires
        0 <= n < ranges.len(),
    ensures
        total_bytes(ranges, 0) == 0,
        total_bytes(ranges, n + 1) == total_bytes(ranges, n) + (ranges[n].end - ranges[n].start),
{
}

} // verus!
