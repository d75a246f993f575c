//! Physical frame allocator: manages 4 KiB physical memory frames.
//!
//! The boot code hands in the list of usable RAM ranges. A bitmap tracks
//! every frame from physical address 0; only frames inside a usable range
//! start out free, so MMIO holes, the kernel image and firmware tables are
//! never handed out.

use vstd::prelude::*;
use crate::bits::{ceil_to, lemma_mask_is_floor, lemma_wrap};

verus! {

/// Size of one physical frame.
pub const FRAME_SIZE: u64 = 4096;

/// Maximum physical memory we support (32 GiB).
pub const MAX_PHYSICAL_MEMORY: u64 = 0x8_0000_0000;

/// Number of 32-bit words in the bitmap.
pub const BITMAP_ENTRIES: usize = 0x4_0000;

/// Number of frames that the bitmap tracks.
pub const FRAMES: usize = 0x80_0000;

/// Bytes that the allocator's header and bitmap take.
pub const RESERVED_BYTES: u64 = 257 * 4096;

/// A physical address range `[start, end)`.
#[derive(Clone, Copy, Debug, PartialEq, Eq, Structural)]
pub struct PhysRange {
    pub start: u64,
    pub end: u64,
}

/// Bitmap-based frame allocator.
pub struct FrameAllocator {
    /// One bit per frame (1 = used, 0 = free).
    bitmap: Vec<u32>,
    /// Number of frames covered by usable RAM (scan limit).
    total_frames: usize,
    /// Number of free frames.
    free_frames: usize,
    /// Where the next search starts.
    last_search: usize,
}

/// What a frame allocator knows: which frames are used, how many frames are
/// covered by usable RAM, and where the next search starts.
#[verifier::ext_equal]
pub struct FrameModel {
    pub used: Seq<bool>,
    pub total: int,
    pub hint: int,
}

/// Frame `i` is marked in the bitmap.
pub open spec fn bit_used(bitmap: Seq<u32>, i: int) -> bool {
    bitmap[i / 32] & (1u32 << ((i % 32) as u32)) != 0
}

/// The frames that are marked in the bitmap.
pub open spec fn used_frames(bitmap: Seq<u32>) -> Seq<bool> {
    Seq::new(FRAMES as nat, |i: int| bit_used(bitmap, i))
}

/// Number of free frames among the first `n`.
pub open spec fn count_free(used: Seq<bool>, n: int) -> int
    decreases n,
{
    if n <= 0 {
        0
    } else {
        count_free(used, n - 1) + if used[n - 1] { 0int } else { 1int }
    }
}

impl FrameModel {
    /// Number of free frames.
    pub open spec fn free(self) -> int {
        count_free(self.used, FRAMES as int)
    }

    /// The `count` frames from `first` on are free and in usable RAM.
    pub open spec fn is_free_run(self, first: int, count: int) -> bool {
        &&& 0 <= first
        &&& first + count <= self.total
        &&& forall|i: int| first <= i < first + count ==> !#[trigger] self.used[i]
    }

    /// The `count` frames from `first` on are used.
    pub open spec fn with_used(self, first: int, count: int) -> FrameModel {
        FrameModel { used: range_set(self.used, first, first + count, true), ..self }
    }

    /// Frame `i` is free.
    pub open spec fn with_free(self, i: int) -> FrameModel {
        FrameModel { used: self.used.update(i, false), ..self }
    }

    /// A free run lies in the memory that we support.
    pub proof fn lemma_run_bounds(self, fa: FrameAllocator, first: int, count: int)
        requires
            fa.inv(),
            self == fa@,
            self.is_free_run(first, count),
            count >= 0,
        ensures
            (first + count) * 4096 <= MAX_PHYSICAL_MEMORY,
    {
    }

    /// The frame that is `k` frames after the start of the search.
    pub open spec fn searched(self, k: int) -> int {
        (self.hint + k) % self.total
    }
}

/// `used` with the frames from `first` up to `last` set to `value`.
pub open spec fn range_set(used: Seq<bool>, first: int, last: int, value: bool) -> Seq<bool> {
    Seq::new(used.len(), |i: int| if first <= i < last { value } else { used[i] })
}

/// `x`, at most the memory that we support.
pub open spec fn limited(x: int) -> int {
    if x < MAX_PHYSICAL_MEMORY {
        x
    } else {
        MAX_PHYSICAL_MEMORY as int
    }
}

/// Frame `i` lies entirely inside the range.
pub open spec fn frame_inside(r: PhysRange, i: int) -> bool {
    (r.start + 4095) / 4096 <= i < limited(r.end as int) / 4096
}

/// Frame `i` overlaps the range.
pub open spec fn frame_overlaps(r: PhysRange, i: int) -> bool {
    r.start as int / 4096 <= i < (limited(r.end as int) + 4095) / 4096
}

/// Frame `i` lies entirely inside one of the ranges.
pub open spec fn inside_any(ranges: Seq<PhysRange>, i: int) -> bool {
    exists|k: int| 0 <= k < ranges.len() && frame_inside(#[trigger] ranges[k], i)
}

/// Frame `i` overlaps one of the ranges.
pub open spec fn overlaps_any(ranges: Seq<PhysRange>, i: int) -> bool {
    exists|k: int| 0 <= k < ranges.len() && frame_overlaps(#[trigger] ranges[k], i)
}

/// The highest end of the ranges, 0 where there is none.
pub open spec fn top_of(ranges: Seq<PhysRange>) -> int
    decreases ranges.len(),
{
    if ranges.len() == 0 {
        0
    } else {
        let rest = top_of(ranges.drop_last());
        if ranges.last().end > rest {
            ranges.last().end as int
        } else {
            rest
        }
    }
}

/// Where the allocator's header and bitmap would lie in range `r`.
pub open spec fn header_in(r: PhysRange, min_addr: u64) -> int {
    ceil_to(if r.start > min_addr { r.start as int } else { min_addr as int }, 4096)
}

/// The range has room for the header and the bitmap.
pub open spec fn has_room(r: PhysRange, min_addr: u64) -> bool {
    header_in(r, min_addr) + RESERVED_BYTES <= r.end
}

/// Where the header lies: in the first range from the `i`th on with room.
pub open spec fn header_from(usable: Seq<PhysRange>, min_addr: u64, i: int) -> Option<int>
    decreases usable.len() - i,
{
    if i < 0 || i >= usable.len() {
        None
    } else if has_room(usable[i], min_addr) {
        Some(header_in(usable[i], min_addr))
    } else {
        header_from(usable, min_addr, i + 1)
    }
}

/// Addresses that can be rounded up, with room for the header, in 64 bits.
pub open spec fn addressable(usable: Seq<PhysRange>, min_addr: u64) -> bool {
    &&& min_addr + 4095 + RESERVED_BYTES <= u64::MAX
    &&& forall|i: int|
        0 <= i < usable.len() ==> (#[trigger] usable[i]).start + 4095 + RESERVED_BYTES <= u64::MAX
}

/// The range that the header and the bitmap take.
pub open spec fn header_range(header: int) -> PhysRange {
    PhysRange { start: header as u64, end: (header + RESERVED_BYTES) as u64 }
}

/// The allocator tracks the usable RAM: a frame is free exactly if it lies
/// inside a usable range, overlaps no reserved one, and does not hold the
/// allocator's own header and bitmap.
pub open spec fn built_from(
    fa: FrameAllocator,
    usable: Seq<PhysRange>,
    reserved: Seq<PhysRange>,
    min_addr: u64,
) -> bool {
    &&& fa.inv()
    &&& fa@.total == limited(top_of(usable)) / 4096
    &&& fa@.hint == 0
    &&& fa@.used.len() == FRAMES
    &&& forall|i: int|
        0 <= i < FRAMES ==> #[trigger] fa@.used[i] == !(inside_any(usable, i) && !overlaps_any(
            reserved,
            i,
        ) && !frame_overlaps(header_range(header_from(usable, min_addr, 0)->0), i))
}

/// Single bits of a word.
proof fn lemma_bits(w: u32, i: u32, j: u32)
    by (bit_vector)
    requires
        i < 32,
        j < 32,
    ensures
        ((w | (1u32 << i)) & (1u32 << j) != 0) == (i == j || w & (1u32 << j) != 0),
        ((w & !(1u32 << i)) & (1u32 << j) != 0) == (i != j && w & (1u32 << j) != 0),
        0xFFFF_FFFFu32 & (1u32 << j) != 0,
{
}

/// Marks frame `idx` used or free in the bitmap.
fn set_bit(bitmap: &mut Vec<u32>, idx: usize, used: bool)
    requires
        old(bitmap)@.len() == BITMAP_ENTRIES,
        idx < FRAMES,
    ensures
        final(bitmap)@.len() == BITMAP_ENTRIES,
        used_frames(final(bitmap)@) == used_frames(old(bitmap)@).update(idx as int, used),
{
    let w: u32 = bitmap[idx / 32];
    let bit: u32 = (idx % 32) as u32;
    let new: u32 = if used { w | (1u32 << bit) } else { w & !(1u32 << bit) };
    bitmap.set(idx / 32, new);
    assert forall|i: int| 0 <= i < FRAMES implies bit_used(bitmap@, i) == used_frames(
        old(bitmap)@,
    ).update(idx as int, used)[i] by {
        lemma_bits(w, bit, (i % 32) as u32);
        if i / 32 == idx as int / 32 {
            assert((i == idx) == (i % 32 == idx as int % 32));
        }
    }
    assert(used_frames(bitmap@) =~= used_frames(old(bitmap)@).update(idx as int, used));
}

/// Marks the frames that overlap `[start, end)` used, or frees only the
/// frames lying entirely inside it.
fn set_range(bitmap: &mut Vec<u32>, start: u64, end: u64, used: bool)
    requires
        old(bitmap)@.len() == BITMAP_ENTRIES,
        !used ==> start <= u64::MAX - 4095,
    ensures
        final(bitmap)@.len() == BITMAP_ENTRIES,
        ({
            let r = PhysRange { start, end };
            used_frames(final(bitmap)@) == Seq::new(
                FRAMES as nat,
                |i: int|
                    if used && frame_overlaps(r, i) {
                        true
                    } else if !used && frame_inside(r, i) {
                        false
                    } else {
                        bit_used(old(bitmap)@, i)
                    },
            )
        }),
{
    let end: u64 = if end < MAX_PHYSICAL_MEMORY { end } else { MAX_PHYSICAL_MEMORY };
    let first: u64 = if used { start / 4096 } else { (start + 4095) / 4096 };
    let last: u64 = if used { (end + 4095) / 4096 } else { end / 4096 };
    let ghost before = used_frames(bitmap@);
    let mut idx: u64 = first;
    while idx < last
        invariant
            first <= idx,
            last <= FRAMES,
            bitmap@.len() == BITMAP_ENTRIES,
            before == used_frames(old(bitmap)@),
            used_frames(bitmap@) == range_set(
                before,
                first as int,
                if idx <= last { idx as int } else { last as int },
                used,
            ),
        decreases last - idx,
    {
        set_bit(bitmap, idx as usize, used);
        idx += 1;
        assert(used_frames(bitmap@) =~= range_set(before, first as int, idx as int, used));
    }
    assert(used_frames(bitmap@) =~= range_set(before, first as int, last as int, used));
}

/// Changing one frame changes the number of free frames by one.
pub proof fn lemma_count_update(used: Seq<bool>, n: int, i: int, value: bool)
    requires
        0 <= i < used.len(),
        0 <= n <= used.len(),
        used[i] != value,
    ensures
        count_free(used.update(i, value), n) == count_free(used, n) + if i >= n {
            0int
        } else if value {
            -1int
        } else {
            1int
        },
    decreases n,
{
    if n > 0 {
        lemma_count_update(used, n - 1, i, value);
    }
}

/// The number of free frames is at most the number of frames.
pub proof fn lemma_count_bound(used: Seq<bool>, n: int)
    requires
        0 <= n,
    ensures
        0 <= count_free(used, n) <= n,
    decreases n,
{
    if n > 0 {
        lemma_count_bound(used, n - 1);
    }
}

/// Where all frames past `m` are used, they do not count.
proof fn lemma_count_tail(used: Seq<bool>, m: int, n: int)
    requires
        0 <= m <= n,
        forall|i: int| m <= i < n ==> #[trigger] used[i],
    ensures
        count_free(used, n) == count_free(used, m),
    decreases n,
{
    if m < n {
        lemma_count_tail(used, m, n - 1);
    }
}

/// A run of free frames counts.
proof fn lemma_count_run(used: Seq<bool>, n: int, first: int, count: int)
    requires
        0 <= first,
        0 <= count,
        first + count <= n,
        forall|i: int| first <= i < first + count ==> !#[trigger] used[i],
    ensures
        count_free(used, n) >= count,
    decreases n,
{
    if n > 0 {
        lemma_count_bound(used, n - 1);
        if first + count < n {
            lemma_count_run(used, n - 1, first, count);
        } else if count > 0 {
            lemma_count_run(used, n - 1, first, count - 1);
        }
    }
}

/// The end of a range is at most the highest end.
proof fn lemma_top(ranges: Seq<PhysRange>, k: int)
    requires
        0 <= k < ranges.len(),
    ensures
        ranges[k].end <= top_of(ranges),
    decreases ranges.len(),
{
    if k < ranges.len() - 1 {
        assert(ranges.drop_last()[k] == ranges[k]);
        lemma_top(ranges.drop_last(), k);
    }
}

impl View for FrameAllocator {
    type V = FrameModel;

    closed spec fn view(&self) -> FrameModel {
        FrameModel {
            used: used_frames(self.bitmap@),
            total: self.total_frames as int,
            hint: self.last_search as int,
        }
    }
}

/// Where the allocator's header and bitmap will lie: in the first usable
/// range with room for them at or above `min_addr`.
pub fn header_address(usable: &[PhysRange], min_addr: u64) -> (r: Option<u64>)
    requires
        addressable(usable@, min_addr),
    ensures
        match r {
            Some(a) => header_from(usable@, min_addr, 0) == Some(a as int) && a + RESERVED_BYTES
                <= u64::MAX,
            None => header_from(usable@, min_addr, 0) is None,
        },
{
    let mut i: usize = 0;
    while i < usable.len()
        invariant
            i <= usable@.len(),
            addressable(usable@, min_addr),
            header_from(usable@, min_addr, 0) == header_from(usable@, min_addr, i as int),
        decreases usable@.len() - i,
    {
        let r = usable[i];
        assert(usable@[i as int].start + 4095 + RESERVED_BYTES <= u64::MAX);
        let low: u64 = if r.start > min_addr { r.start } else { min_addr };
        let start: u64 = (low + 4095) & !0xFFFu64;
        proof {
            lemma_mask_is_floor((low + 4095) as u64);
        }
        if start + RESERVED_BYTES <= r.end {
            return Some(start);
        }
        i += 1;
    }
    None
}

impl FrameAllocator {
    /// The number of free frames is right, and the scan limit and the hint
    /// are in range.
    pub closed spec fn inv(&self) -> bool {
        &&& self.bitmap@.len() == BITMAP_ENTRIES
        &&& self.total_frames <= FRAMES
        &&& self.last_search <= self.total_frames
        &&& self.free_frames == self@.free()
    }

    /// What the invariant says of the model: there is a mark for every frame,
    /// and the frames that are searched, from the hint on, are among them.
    pub proof fn lemma_inv(&self)
        requires
            self.inv(),
        ensures
            self@.used.len() == FRAMES,
            0 <= self@.hint <= self@.total <= FRAMES,
            self@.free() >= 0,
    {
        lemma_count_bound(self@.used, FRAMES as int);
    }

    /// Builds the allocator from the usable RAM ranges, then marks the
    /// `reserved` ranges as used. The allocator's own header and bitmap are
    /// placed in, and reserved from, the first usable range with room for
    /// them at or above `min_addr`.
    pub fn init(usable: &[PhysRange], reserved: &[PhysRange], min_addr: u64) -> (r: Self)
        requires
            addressable(usable@, min_addr),
            header_from(usable@, min_addr, 0) is Some,
        ensures
            built_from(r, usable@, reserved@, min_addr),
    {
        let header_addr: u64 = header_address(usable, min_addr).unwrap();
        let mut top: u64 = 0;
        let mut i: usize = 0;
        while i < usable.len()
            invariant
                i <= usable@.len(),
                top == top_of(usable@.take(i as int)),
            decreases usable@.len() - i,
        {
            assert(usable@.take(i as int + 1).drop_last() =~= usable@.take(i as int));
            assert(usable@.take(i as int + 1).last() == usable@[i as int]);
            if usable[i].end > top {
                top = usable[i].end;
            }
            i += 1;
        }
        assert(usable@.take(i as int) =~= usable@);
        let top: u64 = if top < MAX_PHYSICAL_MEMORY { top } else { MAX_PHYSICAL_MEMORY };
        let total_frames: usize = (top / 4096) as usize;

        let mut bitmap: Vec<u32> = Vec::new();
        let mut w: usize = 0;
        while w < BITMAP_ENTRIES
            invariant
                w <= BITMAP_ENTRIES,
                bitmap@.len() == w,
                forall|k: int| 0 <= k < w ==> #[trigger] bitmap@[k] == 0xFFFF_FFFFu32,
            decreases BITMAP_ENTRIES - w,
        {
            bitmap.push(u32::MAX);
            w += 1;
        }
        assert forall|k: int| 0 <= k < FRAMES implies bit_used(bitmap@, k) by {
            lemma_bits(0, 0, (k % 32) as u32);
        }
        let mut u: usize = 0;
        while u < usable.len()
            invariant
                u <= usable@.len(),
                addressable(usable@, min_addr),
                bitmap@.len() == BITMAP_ENTRIES,
                forall|k: int|
                    0 <= k < FRAMES ==> #[trigger] used_frames(bitmap@)[k] == !inside_any(
                        usable@.take(u as int),
                        k,
                    ),
            decreases usable@.len() - u,
        {
            let r = usable[u];
            assert(usable@[u as int].start + 4095 + RESERVED_BYTES <= u64::MAX);
            let ghost before = used_frames(bitmap@);
            set_range(&mut bitmap, r.start, r.end, false);
            assert forall|k: int| 0 <= k < FRAMES implies #[trigger] used_frames(bitmap@)[k]
                == !inside_any(usable@.take(u as int + 1), k) by {
                assert(before[k] == !inside_any(usable@.take(u as int), k));
                lemma_inside_step(usable@, u as int, k);
                assert(r == (PhysRange { start: r.start, end: r.end }));
            }
            u += 1;
        }
        assert(usable@.take(u as int) =~= usable@);
        let mut v: usize = 0;
        while v < reserved.len()
            invariant
                v <= reserved@.len(),
                bitmap@.len() == BITMAP_ENTRIES,
                forall|k: int|
                    0 <= k < FRAMES ==> #[trigger] used_frames(bitmap@)[k] == !(inside_any(usable@, k)
                        && !overlaps_any(reserved@.take(v as int), k)),
            decreases reserved@.len() - v,
        {
            let r = reserved[v];
            let ghost before = used_frames(bitmap@);
            set_range(&mut bitmap, r.start, r.end, true);
            assert forall|k: int| 0 <= k < FRAMES implies #[trigger] used_frames(bitmap@)[k] == !(
            inside_any(usable@, k) && !overlaps_any(reserved@.take(v as int + 1), k)) by {
                assert(before[k] == !(inside_any(usable@, k) && !overlaps_any(
                    reserved@.take(v as int),
                    k,
                )));
                lemma_overlap_step(reserved@, v as int, k);
                assert(r == (PhysRange { start: r.start, end: r.end }));
            }
            v += 1;
        }
        assert(reserved@.take(v as int) =~= reserved@);
        let ghost before = used_frames(bitmap@);
        set_range(&mut bitmap, header_addr, header_addr + RESERVED_BYTES, true);
        let ghost used = used_frames(bitmap@);
        assert forall|k: int| 0 <= k < FRAMES implies #[trigger] used[k] == !(inside_any(usable@, k)
            && !overlaps_any(reserved@, k) && !frame_overlaps(header_range(header_addr as int), k)) by {
            assert(before[k] == !(inside_any(usable@, k) && !overlaps_any(reserved@, k)));
        }

        let mut free_count: usize = 0;
        let mut f: usize = 0;
        while f < total_frames
            invariant
                f <= total_frames <= FRAMES,
                bitmap@.len() == BITMAP_ENTRIES,
                free_count == count_free(used_frames(bitmap@), f as int),
                free_count <= f,
            decreases total_frames - f,
        {
            assert(used_frames(bitmap@)[f as int] == bit_used(bitmap@, f as int));
            if bitmap[f / 32] & (1u32 << ((f % 32) as u32)) == 0 {
                free_count += 1;
            }
            f += 1;
        }
        proof {
            // Frames past the last usable one are used.
            assert forall|k: int| total_frames <= k < FRAMES implies #[trigger] used[k] by {
                if inside_any(usable@, k) {
                    let r = choose|j: int|
                        0 <= j < usable@.len() && frame_inside(#[trigger] usable@[j], k);
                    lemma_top(usable@, r);
                }
            }
            lemma_count_tail(used, total_frames as int, FRAMES as int);
        }
        FrameAllocator { bitmap, total_frames, free_frames: free_count, last_search: 0 }
    }

    /// Whether frame `idx` is free.
    fn is_free(&self, idx: usize) -> (r: bool)
        requires
            self.bitmap@.len() == BITMAP_ENTRIES,
            idx < FRAMES,
        ensures
            r == !self@.used[idx as int],
    {
        self.bitmap[idx / 32] & (1u32 << ((idx % 32) as u32)) == 0
    }

    /// Allocates a single physical frame and returns its physical address;
    /// `None` where no frame is free. The search starts after the last frame
    /// that was allocated.
    pub fn allocate_frame(&mut self) -> (r: Option<u64>)
        requires
            old(self).inv(),
        ensures
            final(self).inv(),
            match r {
                Some(p) => {
                    let idx = p as int / 4096;
                    &&& p == idx * 4096
                    &&& 0 <= idx < old(self)@.total
                    &&& !old(self)@.used[idx]
                    &&& exists|k: int|
                        0 <= k < old(self)@.total && idx == #[trigger] old(self)@.searched(k)
                            && forall|j: int|
                            0 <= j < k ==> old(self)@.used[#[trigger] old(self)@.searched(j)]
                    &&& final(self)@ == (FrameModel {
                        hint: idx + 1,
                        ..old(self)@.with_used(idx, 1)
                    })
                    &&& final(self)@.free() == old(self)@.free() - 1
                },
                None => {
                    &&& forall|i: int| 0 <= i < old(self)@.total ==> #[trigger] old(self)@.used[i]
                    &&& final(self)@ == old(self)@
                },
            },
    {
        let total: usize = self.total_frames;
        let start: usize = self.last_search;
        let mut i: usize = 0;
        while i < total
            invariant
                i <= total <= FRAMES,
                start <= total,
                total == self@.total,
                start == self@.hint,
                *self == *old(self),
                self.inv(),
                forall|j: int| 0 <= j < i ==> self@.used[#[trigger] self@.searched(j)],
            decreases total - i,
        {
            let sum: usize = start + i;
            let idx: usize = if sum < total { sum } else { sum - total };
            proof {
                lemma_wrap(sum as int, total as int);
                assert(idx == self@.searched(i as int));
            }
            if self.is_free(idx) {
                let ghost before = self@;
                proof {
                    lemma_count_update(before.used, FRAMES as int, idx as int, true);
                    lemma_count_run(before.used, FRAMES as int, idx as int, 1);
                }
                set_bit(&mut self.bitmap, idx, true);
                self.free_frames = self.free_frames - 1;
                self.last_search = idx + 1;
                assert(self@.used =~= before.with_used(idx as int, 1).used);
                assert(idx as int * 4096 / 4096 == idx);
                return Some(idx as u64 * 4096);
            }
            i += 1;
        }
        assert forall|f: int| 0 <= f < total implies #[trigger] self@.used[f] by {
            let k = if f >= start { f - start } else { f + total - start };
            lemma_wrap(start + k, total as int);
            assert(self@.searched(k) == f);
        }
        None
    }

    /// Marks the `count` frames from `first` on, which are free.
    fn mark_run(&mut self, first: usize, count: usize)
        requires
            old(self).inv(),
            old(self)@.is_free_run(first as int, count as int),
        ensures
            final(self).inv(),
            final(self)@ == old(self)@.with_used(first as int, count as int),
            final(self)@.free() == old(self)@.free() - count,
    {
        let ghost before = self@;
        proof {
            lemma_count_run(before.used, FRAMES as int, first as int, count as int);
        }
        let mut i: usize = 0;
        assert(self@.used =~= range_set(before.used, first as int, first as int, true));
        while i < count
            invariant
                i <= count,
                before == old(self)@,
                before.used.len() == FRAMES,
                before.is_free_run(first as int, count as int),
                before.total <= FRAMES,
                self.bitmap@.len() == BITMAP_ENTRIES,
                self.total_frames == old(self).total_frames,
                self.free_frames == old(self).free_frames,
                self.last_search == old(self).last_search,
                self@.used == range_set(before.used, first as int, first + i, true),
                count_free(self@.used, FRAMES as int) == before.free() - i,
            decreases count - i,
        {
            let idx: usize = first + i;
            proof {
                assert(!before.used[idx as int]);
                lemma_count_update(self@.used, FRAMES as int, idx as int, true);
            }
            set_bit(&mut self.bitmap, idx, true);
            i += 1;
            assert(self@.used =~= range_set(before.used, first as int, first + i, true));
        }
        self.free_frames = self.free_frames - count;
    }

    /// Allocates `count` physically contiguous frames and returns the first
    /// frame's address: the lowest run of free frames. `None` where there is
    /// no such run, or for no frames.
    pub fn allocate_contiguous(&mut self, count: usize) -> (r: Option<u64>)
        requires
            old(self).inv(),
        ensures
            final(self).inv(),
            match r {
                Some(p) => {
                    let first = p as int / 4096;
                    &&& p == first * 4096
                    &&& count > 0
                    &&& old(self)@.is_free_run(first, count as int)
                    &&& forall|s: int|
                        0 <= s < first ==> !#[trigger] old(self)@.is_free_run(s, count as int)
                    &&& final(self)@ == old(self)@.with_used(first, count as int)
                    &&& final(self)@.free() == old(self)@.free() - count
                },
                None => {
                    &&& count == 0 || forall|s: int|
                        0 <= s ==> !#[trigger] old(self)@.is_free_run(s, count as int)
                    &&& final(self)@ == old(self)@
                },
            },
    {
        if count == 0 {
            return None;
        }
        let mut run_start: usize = 0;
        let mut run_len: usize = 0;
        let mut idx: usize = 0;
        while idx < self.total_frames
            invariant
                idx <= self.total_frames <= FRAMES,
                *self == *old(self),
                self.inv(),
                0 < count,
                run_len < count,
                run_len <= idx,
                run_len > 0 ==> run_start + run_len == idx,
                forall|i: int| idx - run_len <= i < idx ==> !#[trigger] self@.used[i],
                idx > run_len ==> self@.used[idx - run_len - 1],
                forall|s: int|
                    0 <= s && s + count <= idx ==> !#[trigger] self@.is_free_run(s, count as int),
            decreases self.total_frames - idx,
        {
            let ghost begin = idx - run_len;
            if self.is_free(idx) {
                if run_len == 0 {
                    run_start = idx;
                }
                run_len += 1;
                if run_len == count {
                    assert(self@.is_free_run(run_start as int, count as int));
                    assert forall|s: int| 0 <= s < run_start implies !#[trigger] self@.is_free_run(
                        s,
                        count as int,
                    ) by {
                        if self@.is_free_run(s, count as int) && s + count > idx {
                            assert(!self@.used[run_start - 1]);
                        }
                    }
                    self.mark_run(run_start, count);
                    assert(run_start as int * 4096 / 4096 == run_start);
                    return Some(run_start as u64 * 4096);
                }
                assert forall|s: int| 0 <= s && s + count <= idx + 1 implies
                    !#[trigger] self@.is_free_run(s, count as int) by {
                    if s + count == idx + 1 && self@.is_free_run(s, count as int) {
                        assert(s < begin);
                        assert(!self@.used[begin - 1]);
                    }
                }
            } else {
                run_len = 0;
                assert forall|s: int| 0 <= s && s + count <= idx + 1 implies
                    !#[trigger] self@.is_free_run(s, count as int) by {
                    if s + count == idx + 1 && self@.is_free_run(s, count as int) {
                        assert(!self@.used[idx as int]);
                    }
                }
            }
            idx += 1;
        }
        None
    }

    /// Claims the `count` frames at physical address `start` if they are all
    /// free; otherwise none of them.
    pub fn claim_range(&mut self, start: u64, count: usize) -> (r: bool)
        requires
            old(self).inv(),
            start as int / 4096 + count <= usize::MAX,
        ensures
            final(self).inv(),
            r == old(self)@.is_free_run(start as int / 4096, count as int),
            r ==> final(self)@ == old(self)@.with_used(start as int / 4096, count as int),
            r ==> final(self)@.free() == old(self)@.free() - count,
            !r ==> final(self)@ == old(self)@,
    {
        let first: usize = (start / 4096) as usize;
        if first + count > self.total_frames {
            return false;
        }
        let mut i: usize = 0;
        while i < count
            invariant
                i <= count,
                *self == *old(self),
                self.inv(),
                first == start as int / 4096,
                first + count <= self.total_frames,
                forall|k: int| first <= k < first + i ==> !#[trigger] self@.used[k],
            decreases count - i,
        {
            if !self.is_free(first + i) {
                assert(self@.used[first + i]);
                return false;
            }
            i += 1;
        }
        self.mark_run(first, count);
        true
    }

    /// Frees the frame at `phys`; a frame that is free stays so.
    pub fn deallocate_frame(&mut self, phys: u64)
        requires
            old(self).inv(),
            phys < MAX_PHYSICAL_MEMORY,
        ensures
            final(self).inv(),
            final(self)@ == old(self)@.with_free(phys as int / 4096),
            final(self)@.free() == old(self)@.free() + if old(self)@.used[phys as int / 4096] {
                1int
            } else {
                0int
            },
    {
        let idx: usize = (phys / 4096) as usize;
        if !self.is_free(idx) {
            proof {
                lemma_count_update(self@.used, FRAMES as int, idx as int, false);
                lemma_count_bound(self@.used.update(idx as int, false), FRAMES as int);
            }
            set_bit(&mut self.bitmap, idx, false);
            self.free_frames = self.free_frames + 1;
        } else {
            assert(self@.used =~= self@.used.update(idx as int, false));
        }
    }

    /// Number of free frames remaining.
    pub fn free_count(&self) -> (r: usize)
        requires
            self.inv(),
        ensures
            r == self@.free(),
    {
        self.free_frames
    }

    /// Number of frames covered by usable RAM.
    pub fn total_count(&self) -> (r: usize)
        ensures
            r == self@.total,
    {
        self.total_frames
    }
}

/// One range more.
proof fn lemma_inside_step(ranges: Seq<PhysRange>, n: int, i: int)
    requires
        0 <= n < ranges.len(),
    ensures
        inside_any(ranges.take(n + 1), i) == (inside_any(ranges.take(n), i) || frame_inside(
            ranges[n],
            i,
        )),
{
    let a = ranges.take(n);
    let b = ranges.take(n + 1);
    if inside_any(a, i) {
        let k = choose|k: int| 0 <= k < a.len() && frame_inside(#[trigger] a[k], i);
        assert(frame_inside(b[k], i));
    }
    if inside_any(b, i) {
        let k = choose|k: int| 0 <= k < b.len() && frame_inside(#[trigger] b[k], i);
        if k < n {
            assert(frame_inside(a[k], i));
        }
    }
    if frame_inside(ranges[n], i) {
        assert(frame_inside(b[n], i));
    }
}

/// One range more.
proof fn lemma_overlap_step(ranges: Seq<PhysRange>, n: int, i: int)
    requires
        0 <= n < ranges.len(),
    ensures
        overlaps_any(ranges.take(n + 1), i) == (overlaps_any(ranges.take(n), i) || frame_overlaps(
            ranges[n],
            i,
        )),
{
    let a = ranges.take(n);
    let b = ranges.take(n + 1);
    if overlaps_any(a, i) {
        let k = choose|k: int| 0 <= k < a.len() && frame_overlaps(#[trigger] a[k], i);
        assert(frame_overlaps(b[k], i));
    }
    if overlaps_any(b, i) {
        let k = choose|k: int| 0 <= k < b.len() && frame_overlaps(#[trigger] b[k], i);
        if k < n {
            assert(frame_overlaps(a[k], i));
        }
    }
    if frame_overlaps(ranges[n], i) {
        assert(frame_overlaps(b[n], i));
    }
}

/// Freeing a frame undoes its allocation, and allocating a freed frame undoes
/// the freeing.
pub proof fn law_free_undoes_allocate(s: FrameModel, i: int)
    requires
        0 <= i < s.used.len(),
    ensures
        !s.used[i] ==> s.with_used(i, 1).with_free(i) == s,
        s.used[i] ==> s.with_free(i).with_used(i, 1) == s,
{
    if s.used[i] {
        assert(s.with_free(i).with_used(i, 1).used =~= s.used);
    } else {
        assert(s.with_used(i, 1).with_free(i).used =~= s.used);
    }
}

/// An allocator that was built has no free frame past the usable RAM.
pub proof fn law_frames_past_ram_are_used(
    fa: FrameAllocator,
    usable: Seq<PhysRange>,
    reserved: Seq<PhysRange>,
    min_addr: u64,
    i: int,
)
    requires
        built_from(fa, usable, reserved, min_addr),
        fa@.total <= i < FRAMES,
    ensures
        fa@.used[i],
{
    fa.lemma_inv();
    if inside_any(usable, i) {
        let k = choose|k: int| 0 <= k < usable.len() && frame_inside(#[trigger] usable[k], i);
        lemma_top(usable, k);
    }
}

/// An operation on the frames.
pub enum FrameStep {
    /// The `count` frames from `first` on, which are free, are handed out.
    Take { first: int, count: int },
    /// Frame `i` is freed.
    Free { i: int },
}

impl FrameModel {
    /// `step` takes this state to `post`.
    pub open spec fn stepped(self, step: FrameStep, post: FrameModel) -> bool {
        match step {
            FrameStep::Take { first, count } => self.is_free_run(first, count) && post == (FrameModel {
                hint: post.hint,
                ..self.with_used(first, count)
            }),
            FrameStep::Free { i } => 0 <= i < FRAMES && post == self.with_free(i),
        }
    }
}

impl FrameStep {
    /// The step hands out frame `i`.
    pub open spec fn takes(self, i: int) -> bool {
        match self {
            FrameStep::Take { first, count } => first <= i < first + count,
            FrameStep::Free { .. } => false,
        }
    }
}

/// Step `k` leads from state `k` to the next.
pub open spec fn leads_on(states: Seq<FrameModel>, steps: Seq<FrameStep>, k: int) -> bool {
    states[k].stepped(steps[k], states[k + 1])
}

/// A run of the allocator: `steps` lead through `states`.
pub open spec fn history(states: Seq<FrameModel>, steps: Seq<FrameStep>) -> bool {
    &&& states.len() == steps.len() + 1
    &&& states[0].used.len() == FRAMES
    &&& states[0].total <= FRAMES
    &&& forall|k: int| 0 <= k < steps.len() ==> #[trigger] leads_on(states, steps, k)
}

/// The memory stays the same over a run.
proof fn lemma_same_memory(states: Seq<FrameModel>, steps: Seq<FrameStep>, k: int)
    requires
        history(states, steps),
        0 <= k < states.len(),
    ensures
        states[k].used.len() == FRAMES,
        states[k].total == states[0].total,
    decreases k,
{
    if k > 0 {
        lemma_same_memory(states, steps, k - 1);
        assert(leads_on(states, steps, k - 1));
    }
}

/// A frame that was handed out is used, and is not handed out again, until it
/// is freed, whatever else is handed out and freed in the meantime.
pub proof fn law_frame_is_handed_out_once(
    states: Seq<FrameModel>,
    steps: Seq<FrameStep>,
    i: int,
    j: int,
    frame: int,
)
    requires
        history(states, steps),
        0 <= i < j < steps.len(),
        steps[i].takes(frame),
        forall|k: int| i < k < j ==> #[trigger] steps[k] != (FrameStep::Free { i: frame }),
    ensures
        states[j].used[frame],
        !steps[j].takes(frame),
    decreases j,
{
    lemma_same_memory(states, steps, i);
    lemma_same_memory(states, steps, j - 1);
    lemma_same_memory(states, steps, j);
    assert(leads_on(states, steps, i));
    assert(leads_on(states, steps, j - 1));
    assert(leads_on(states, steps, j));
    if i + 1 < j {
        law_frame_is_handed_out_once(states, steps, i, j - 1, frame);
    }
}

/// A frame is usable if it lies whole in a range, below the limit of 32 GiB;
/// one is kept back if any byte of it lies in a range that is reserved.
pub proof fn law_frames_of_ranges(r: PhysRange, i: int)
    requires
        0 <= i,
    ensures
        frame_inside(r, i) <==> r.start <= 4096 * i && 4096 * (i + 1) <= r.end && 4096 * (i + 1)
            <= 0x8_0000_0000,
        frame_overlaps(r, i) && r.end <= 0x8_0000_0000 ==> r.start < 4096 * (i + 1) && 4096 * i < r.end,
        r.start < 4096 * (i + 1) && 4096 * i < r.end && r.end <= 0x8_0000_0000 ==> frame_overlaps(r, i),
{
}

/// The top of the ranges is the largest of their ends.
pub proof fn law_top_is_the_largest_end(ranges: Seq<PhysRange>, k: int)
    requires
        0 <= k < ranges.len(),
    ensures
        ranges[k].end <= top_of(ranges),
        exists|j: int| 0 <= j < ranges.len() && (#[trigger] ranges[j]).end == top_of(ranges),
    decreases ranges.len(),
{
    let rest = ranges.drop_last();
    let n = ranges.len() - 1;
    if n > 0 {
        law_top_is_the_largest_end(rest, if k < n {
            k
        } else {
            0
        });
        let j = choose|j: int| 0 <= j < rest.len() && (#[trigger] rest[j]).end == top_of(rest);
        assert(ranges[j] == rest[j]);
        assert(top_of(ranges) == top_of(rest) ==> ranges[j].end == top_of(ranges));
        if k < n {
            assert(ranges[k] == rest[k]);
        }
    } else {
        assert(top_of(rest) == 0);
    }
    assert(ranges[n] == ranges.last());
    if top_of(ranges) == ranges.last().end {
        assert(ranges[n].end == top_of(ranges));
    }
}

/// The bitmap is put in the first range with room for it, on a page boundary
/// at or behind the lowest address allowed.
pub proof fn law_bitmap_is_put_first(usable: Seq<PhysRange>, min_addr: u64, i: int)
    requires
        0 <= i,
    ensures
        match header_from(usable, min_addr, i) {
            Some(h) => exists|k: int|
                #![trigger usable[k]]
                i <= k < usable.len() && h % 4096 == 0 && min_addr <= h && usable[k].start <= h && h + 257
                    * 4096 <= usable[k].end && forall|j: int|
                    i <= j < k ==> !has_room(#[trigger] usable[j], min_addr),
            None => forall|k: int| i <= k < usable.len() ==> !has_room(#[trigger] usable[k], min_addr),
        },
    decreases usable.len() - i,
{
    if i < usable.len() {
        if has_room(usable[i], min_addr) {
            let low = if usable[i].start > min_addr {
                usable[i].start as int
            } else {
                min_addr as int
            };
            crate::bits::law_rounding(low, 4096);
            assert(usable[i] == usable[i]);
        } else {
            law_bitmap_is_put_first(usable, min_addr, i + 1);
        }
    }
}

/// Free frames are counted one by one.
pub proof fn law_free_frames_are_counted(used: Seq<bool>, n: int)
    requires
        0 <= n < used.len(),
    ensures
        count_free(used, 0) == 0,
        used[n] ==> count_free(used, n + 1) == count_free(used, n),
        !used[n] ==> count_free(used, n + 1) == count_free(used, n) + 1,
{
}

/// Taking and freeing change the frames that are meant, and no others.
pub proof fn law_taking_and_freeing(s: FrameModel, first: int, count: int, i: int)
    requires
        0 <= i < s.used.len(),
        0 <= first < s.used.len(),
    ensures
        first <= i < first + count ==> s.with_used(first, count).used[i],
        !(first <= i < first + count) ==> s.with_used(first, count).used[i] == s.used[i],
        !s.with_free(first).used[first],
        i != first ==> s.with_free(first).used[i] == s.used[i],
        s.with_used(first, count).total == s.total,
        s.with_free(first).total == s.total,
{
}

/// A search goes over all frames, each once: from where the last one ended to
/// the end, then from the start.
pub proof fn law_search_goes_round(s: FrameModel, k: int)
    requires
        0 <= s.hint <= s.total,
        0 <= k < s.total,
    ensures
        s.hint + k < s.total ==> s.searched(k) == s.hint + k,
        s.hint + k >= s.total ==> s.searched(k) == s.hint + k - s.total,
{
    crate::bits::lemma_wrap(s.hint + k, s.total);
}

/// The memory that is tracked: 32 GiB in frames of 4 KiB.
pub proof fn law_tracked_memory()
    ensures
        FRAMES * 4096 == MAX_PHYSICAL_MEMORY,
        MAX_PHYSICAL_MEMORY == 0x8_0000_0000,
        BITMAP_ENTRIES * 32 == FRAMES,
        RESERVED_BYTES == 4096 + 4 * BITMAP_ENTRIES,
{
}

proof fn lemma_frame_bit(w: u32, i: u32)
    by (bit_vector)
    requires
        i < 32,
    ensures
        (w & (1u32 << i) != 0) == ((w >> i) & 1 == 1),
{
}

/// The frames have a bit each, 32 to a word, the lowest bit first, and a set bit says that the frame is
/// used.
pub proof fn law_bit_of_a_frame(bitmap: Seq<u32>, word: int, bit: u32)
    requires
        0 <= word,
        bit < 32,
        32 * word + bit < FRAMES,
    ensures
        bit_used(bitmap, 32 * word + bit) <==> (bitmap[word] >> bit) & 1 == 1,
        used_frames(bitmap)[32 * word + bit] == bit_used(bitmap, 32 * word + bit),
{
    assert((32 * word + bit) / 32 == word);
    assert((32 * word + bit) % 32 == bit);
    lemma_frame_bit(bitmap[word], bit);
}

/// A run is free exactly if its two parts are, and a single frame exactly if it is there and not used.
pub proof fn law_free_runs(m: FrameModel, first: int, a: int, b: int)
    requires
        a >= 0,
        b >= 0,
        first >= 0,
    ensures
        m.is_free_run(first, a + b) <==> m.is_free_run(first, a) && m.is_free_run(first + a, b),
        m.is_free_run(first, 1) <==> first < m.total && !m.used[first],
{
}

/// A frame lies in some of several ranges exactly if it lies in one of the first or in the last.
pub proof fn law_frames_in_ranges(ranges: Seq<PhysRange>, x: PhysRange, i: int)
    ensures
        inside_any(ranges.push(x), i) <==> inside_any(ranges, i) || frame_inside(x, i),
        overlaps_any(ranges.push(x), i) <==> overlaps_any(ranges, i) || frame_overlaps(x, i),
        !inside_any(Seq::empty(), i),
        !overlaps_any(Seq::empty(), i),
{
    let more = ranges.push(x);
    assert(more[ranges.len() as int] == x);
    assert forall|k: int| 0 <= k < ranges.len() implies #[trigger] more[k] == ranges[k] by {}
    if inside_any(ranges, i) {
        let k = choose|k: int| 0 <= k < ranges.len() && frame_inside(#[trigger] ranges[k], i);
        assert(frame_inside(more[k], i));
    }
    if overlaps_any(ranges, i) {
        let k = choose|k: int| 0 <= k < ranges.len() && frame_overlaps(#[trigger] ranges[k], i);
        assert(frame_overlaps(more[k], i));
    }
}

/// The bitmap takes 257 pages from where it lies.
pub proof fn law_memory_of_the_bitmap(header: int)
    requires
        0 <= header,
        header + 257 * 4096 <= u64::MAX,
    ensures
        header_range(header).start == header,
        header_range(header).end - header_range(header).start == 257 * 4096,
{
}

} // verus!
