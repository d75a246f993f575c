use std::collections::BTreeMap;

use mmurtl_rs::memory;
use mmurtl_rs::memory::frame_allocator::{header_address, FrameAllocator, PhysRange, RESERVED_BYTES};
use mmurtl_rs::memory::heap::{AllocStep, BumpAllocator};
use mmurtl_rs::memory::page_table::{
    map_page, query_page, set_page_uncached, translate_virtual, unmap_page, PageError, PageResult,
    PageWalk, TableOp, TableReply, GLOBAL, HUGE_PAGE, NO_CACHE, NO_EXECUTE, PRESENT, WRITABLE,
    WRITE_THROUGH,
};
use mmurtl_rs::memory::user::{
    self, load_program, pages_to_query, range_ok, LoadError, CODE_OFFSET, STACK_TOP_OFFSET, USER_BASE,
    USER_END, USER_MAX_SLOTS, USER_SLOT_SIZE,
};

/// 16 MiB from 1 MiB on, with a hole at 4 MiB.
fn frames() -> FrameAllocator {
    let usable = [PhysRange { start: 0x10_0000, end: 0x110_0000 }];
    let reserved = [PhysRange { start: 0x40_0800, end: 0x40_1001 }];
    FrameAllocator::init(&usable, &reserved, 0)
}

#[test]
fn frames_leave_out_header_and_reserved() {
    let fa = frames();
    assert_eq!(fa.total_count(), 0x1100);
    // 4096 usable frames, 257 for the bitmap and its header, two reserved.
    assert_eq!(fa.free_count(), 4096 - 257 - 2);
}

#[test]
fn header_lies_above_the_minimum() {
    let usable = [
        PhysRange { start: 0, end: 0x9_F000 },
        PhysRange { start: 0x10_0000, end: 0x200_0000 },
    ];
    assert_eq!(header_address(&usable, 0), Some(0x10_0000));
    assert_eq!(header_address(&usable, 0x123_4567), Some(0x123_5000));
    assert_eq!(header_address(&usable, 0x1F0_0000), None);
    assert_eq!(RESERVED_BYTES, 0x10_1000);
}

#[test]
fn frames_come_in_order_and_are_not_given_twice() {
    let mut fa = frames();
    let a = fa.allocate_frame().unwrap();
    let b = fa.allocate_frame().unwrap();
    assert_eq!(a, 0x10_0000 + RESERVED_BYTES);
    assert_eq!(b, a + 4096);
    let free = fa.free_count();
    fa.deallocate_frame(a);
    assert_eq!(fa.free_count(), free + 1);
}

#[test]
fn freed_frames_can_be_allocated_again() {
    let usable = [PhysRange { start: 0, end: RESERVED_BYTES + 2 * 4096 }];
    let mut fa = FrameAllocator::init(&usable, &[], 0);
    let a = fa.allocate_frame().unwrap();
    let b = fa.allocate_frame().unwrap();
    assert_eq!(fa.allocate_frame(), None);
    fa.deallocate_frame(a);
    assert_eq!(fa.allocate_frame(), Some(a));
    assert_ne!(a, b);
    assert_eq!(fa.free_count(), 0);
}

#[test]
fn contiguous_runs_skip_the_hole() {
    let mut fa = frames();
    // Below the hole lie 0x20_1000..0x40_0000: 511 frames.
    assert_eq!(fa.allocate_contiguous(511), Some(0x20_1000));
    assert_eq!(fa.allocate_contiguous(1), Some(0x40_2000));
    assert_eq!(fa.allocate_contiguous(10_000), None);
}

#[test]
fn claims_succeed_once() {
    let mut fa = frames();
    let free = fa.free_count();
    assert!(fa.claim_range(0x50_0000, 16));
    assert_eq!(fa.free_count(), free - 16);
    assert!(!fa.claim_range(0x50_F000, 2));
    assert!(!fa.claim_range(0x40_0000, 1));
    assert_eq!(fa.free_count(), free - 16);
}

#[test]
fn init_reports_mebibytes() {
    let usable = [
        PhysRange { start: 0x10_0000, end: 0x110_0000 },
        PhysRange { start: 0x200_0000, end: 0x280_0000 },
    ];
    let (fa, free, total) = memory::init(&usable, &[], 0);
    assert_eq!(total, 24);
    assert_eq!(free, 22);
    assert_eq!(fa.free_count(), 6144 - 257);
}

#[test]
fn bump_allocations_are_aligned_and_disjoint() {
    let mut h = BumpAllocator::new();
    assert_eq!(h.alloc_impl(1, 1), AllocStep::Extend { needed: 1 });
    h.init(0x1001, 0x2000);
    assert_eq!(h.alloc_impl(10, 16), AllocStep::Done(0x1010));
    assert_eq!(h.alloc_impl(4, 4), AllocStep::Done(0x101C));
    assert_eq!(h.next_free, 0x1020);
    h.init(0, 0);
    assert_eq!(h.next_free, 0x1020);
}

#[test]
fn bump_allocator_asks_for_growth() {
    let mut h = BumpAllocator::new();
    h.init(0x1000, 0x1100);
    assert_eq!(h.alloc_impl(0x200, 1), AllocStep::Extend { needed: 0x200 });
    assert_eq!(h.next_free, 0x1000);
    h.extended(0x1000);
    assert_eq!(h.alloc_impl(0x200, 1), AllocStep::Done(0x1000));
    assert_eq!(h.heap_end, 0x2100);
}

#[test]
fn blocks_stay_apart_while_the_heap_grows() {
    let mut h = BumpAllocator::new();
    h.init(0x1000, 0x1040);
    let mut blocks: Vec<(usize, usize)> = Vec::new();
    for (size, align) in [(0x30, 8), (0x11, 16), (1, 1), (0x100, 64), (0, 32), (7, 2)] {
        let start = loop {
            match h.alloc_impl(size, align) {
                AllocStep::Done(addr) => break addr,
                AllocStep::Extend { needed } => h.extended(needed as usize),
            }
        };
        assert_eq!(start % align, 0);
        for (_, end) in &blocks {
            assert!(*end <= start);
        }
        blocks.push((start, start + size));
        assert!(0x1000 <= start && start + size <= h.heap_end);
    }
    assert_eq!(blocks[1], (0x1030, 0x1041));
    assert_eq!(blocks[3], (0x1080, 0x1180));
}

/// Page tables in memory, with frames to make more from.
struct Tables {
    mem: BTreeMap<u64, u64>,
    frames: Vec<u64>,
}

const ROOT: u64 = 0x1000;

impl Tables {
    fn new() -> Tables {
        Tables { mem: BTreeMap::new(), frames: vec![0x9000, 0x8000, 0x7000, 0x6000, 0x5000, 0x4000] }
    }

    fn run(&mut self, walk: PageWalk) -> PageResult {
        let mut walk = walk;
        while let Some(op) = walk.next_op() {
            let reply = match op {
                TableOp::Read { addr } => TableReply::Entry(*self.mem.get(&addr).unwrap_or(&0)),
                TableOp::Write { addr, value } => {
                    self.mem.insert(addr, value);
                    TableReply::Done
                },
                TableOp::Fill { table, entries } => {
                    for (i, e) in entries.iter().enumerate() {
                        self.mem.insert(table + 8 * i as u64, *e);
                    }
                    TableReply::Done
                },
                TableOp::Alloc => TableReply::Frame(self.frames.pop()),
            };
            walk.feed(reply);
        }
        walk.result().unwrap()
    }
}

const VA: u64 = 0x4444_8123_4000;

#[test]
fn mapped_page_is_translated() {
    let mut t = Tables::new();
    assert_eq!(t.run(map_page(ROOT, VA, 0xABC_D000, WRITABLE | NO_EXECUTE)), PageResult::Changed);
    assert_eq!(t.run(translate_virtual(ROOT, VA + 0x123)), PageResult::Address(Some(0xABC_D123)));
    assert_eq!(
        t.run(query_page(ROOT, VA)),
        PageResult::Flags(Some(PRESENT | WRITABLE | NO_EXECUTE))
    );
    assert_eq!(t.run(translate_virtual(ROOT, VA + 0x1000)), PageResult::Address(None));
    assert_eq!(t.run(query_page(ROOT, VA + 0x1000)), PageResult::Flags(None));
    // Three tables were made below the root.
    assert_eq!(t.frames, vec![0x9000, 0x8000, 0x7000]);
}

#[test]
fn mapping_twice_fails() {
    let mut t = Tables::new();
    t.run(map_page(ROOT, VA, 0xABC_D000, WRITABLE));
    assert_eq!(
        t.run(map_page(ROOT, VA, 0x1_0000, WRITABLE)),
        PageResult::Failed(PageError::AlreadyMapped)
    );
    assert_eq!(t.run(translate_virtual(ROOT, VA)), PageResult::Address(Some(0xABC_D000)));
}

#[test]
fn mapping_without_frames_fails() {
    let mut t = Tables::new();
    t.frames = vec![0x5000];
    assert!(matches!(
        t.run(map_page(ROOT, VA, 0xABC_D000, WRITABLE)),
        PageResult::Failed(PageError::OutOfMemory(_))
    ));
    assert_eq!(t.run(translate_virtual(ROOT, VA)), PageResult::Address(None));
}

#[test]
fn unmapping_undoes_mapping() {
    let mut t = Tables::new();
    t.run(map_page(ROOT, VA, 0xABC_D000, WRITABLE));
    t.run(map_page(ROOT, VA + 0x1000, 0xABC_E000, WRITABLE));
    assert_eq!(t.run(unmap_page(ROOT, VA)), PageResult::Unmapped(0xABC_D000));
    assert_eq!(t.run(translate_virtual(ROOT, VA)), PageResult::Address(None));
    assert_eq!(t.run(translate_virtual(ROOT, VA + 0x1000)), PageResult::Address(Some(0xABC_E000)));
    assert!(matches!(t.run(unmap_page(ROOT, VA)), PageResult::Failed(PageError::NotPresent(_))));
}

/// A huge page of 2 MiB at `va`, in a tree of its own.
fn with_huge(va: u64, level: u32, entry: u64) -> Tables {
    let mut t = Tables::new();
    let mut table = ROOT;
    let mut l = 4;
    while l > level {
        let slot = table + 8 * ((va >> (12 + 9 * (l - 1))) & 511);
        let next = 0x10_0000 + 0x1000 * l as u64;
        t.mem.insert(slot, next | PRESENT | WRITABLE);
        table = next;
        l -= 1;
    }
    t.mem.insert(table + 8 * ((va >> (12 + 9 * (l - 1))) & 511), entry);
    t
}

#[test]
fn huge_pages_are_translated() {
    let mut t = with_huge(VA, 2, 0x4000_0000 | HUGE_PAGE | PRESENT);
    assert_eq!(
        t.run(translate_virtual(ROOT, VA)),
        PageResult::Address(Some(0x4000_0000 + (VA & 0x1F_FFFF)))
    );
    let mut t = with_huge(VA, 3, 0x8000_0000 | HUGE_PAGE | PRESENT);
    assert_eq!(
        t.run(translate_virtual(ROOT, VA)),
        PageResult::Address(Some(0x8000_0000 + (VA & 0x3FFF_FFFF)))
    );
}

#[test]
fn uncaching_splits_a_huge_page() {
    let mut t = with_huge(VA, 2, 0x4000_0000 | HUGE_PAGE | PRESENT | WRITABLE | GLOBAL);
    assert_eq!(t.run(set_page_uncached(ROOT, VA)), PageResult::Changed);
    let here = 0x4000_0000 + (VA & 0x1F_FFFF);
    assert_eq!(t.run(translate_virtual(ROOT, VA)), PageResult::Address(Some(here)));
    assert_eq!(
        t.run(query_page(ROOT, VA)),
        PageResult::Flags(Some(PRESENT | WRITABLE | GLOBAL | NO_CACHE | WRITE_THROUGH))
    );
    // The neighbours are where they were, and cached as they were.
    assert_eq!(t.run(translate_virtual(ROOT, VA + 0x1000)), PageResult::Address(Some(here + 0x1000)));
    assert_eq!(
        t.run(query_page(ROOT, VA + 0x1000)),
        PageResult::Flags(Some(PRESENT | WRITABLE | GLOBAL))
    );
}

#[test]
fn uncaching_fails_without_a_page_or_a_frame() {
    let mut t = Tables::new();
    assert!(matches!(
        t.run(set_page_uncached(ROOT, VA)),
        PageResult::Failed(PageError::NotPresent(_))
    ));
    let mut t = with_huge(VA, 2, 0x4000_0000 | HUGE_PAGE | PRESENT);
    t.frames = vec![];
    assert_eq!(
        t.run(set_page_uncached(ROOT, VA)),
        PageResult::Failed(PageError::SplitOutOfMemory)
    );
}

#[test]
fn programs_get_slots_of_their_own() {
    let mut next = 0;
    let (image, pages) = load_program(&mut next, &[0x90; 5000]).unwrap();
    assert_eq!(image.entry, USER_BASE + CODE_OFFSET);
    assert_eq!(image.stack_top, USER_BASE + STACK_TOP_OFFSET);
    assert_eq!(pages.len(), 6);
    assert_eq!((pages[0].offset, pages[0].len), (0, 4096));
    assert_eq!((pages[1].offset, pages[1].len), (4096, 904));
    assert_eq!(pages[1].va, USER_BASE + 0x2000);
    assert!(pages.iter().all(|p| !(p.writable && p.executable)));
    assert_eq!(pages[2].va, image.stack_top - 4096);
    assert_eq!(pages[5].va, image.stack_top - 4 * 4096);

    let (second, _) = load_program(&mut next, &[0x90]).unwrap();
    assert_eq!(second.entry, image.entry + USER_SLOT_SIZE);
    assert_eq!(next, 2);
}

#[test]
fn programs_that_cannot_be_loaded() {
    let mut next = 0;
    assert_eq!(load_program(&mut next, &[]).err(), Some(LoadError::TooLarge));
    assert_eq!(load_program(&mut next, &[0; 0xF_A001]).err(), Some(LoadError::TooLarge));
    assert_eq!(next, 0);
    assert_eq!(load_program(&mut next, &[0; 0xF_A000]).unwrap().1.len(), 0xFA + 4);
    next = USER_MAX_SLOTS;
    assert_eq!(load_program(&mut next, &[0]).err(), Some(LoadError::NoSlots));
    assert_eq!(LoadError::NoSlots.message(), "no free user slots");
    assert_eq!(LoadError::TooLarge.message(), "program too large for a user slot");
}

#[test]
fn user_ranges_are_checked_page_by_page() {
    let rw = Some((true, true));
    let ro = Some((true, false));
    let kernel = Some((false, true));
    let ptr = USER_BASE + 0x1FF0;
    assert_eq!(pages_to_query(ptr, 0x20), (USER_BASE + 0x1000, 2));
    assert!(range_ok(ptr, 0x20, true, &[rw, rw]));
    assert!(range_ok(ptr, 0x20, false, &[rw, ro]));
    assert!(!range_ok(ptr, 0x20, true, &[rw, ro]));
    assert!(!range_ok(ptr, 0x20, false, &[rw, kernel]));
    assert!(!range_ok(ptr, 0x20, false, &[rw, None]));
}

#[test]
fn ranges_outside_the_window_are_refused() {
    assert!(range_ok(0, 0, true, &[]));
    assert!(!range_ok(USER_BASE - 1, 1, false, &[]));
    assert!(!range_ok(USER_END - 1, 2, false, &[]));
    assert!(!range_ok(USER_BASE, u64::MAX, false, &[]));
    assert_eq!(pages_to_query(USER_END - 1, 2).1, 0);
    assert!(range_ok(USER_END - 1, 1, false, &[Some((true, false))]));
}

#[test]
fn user_window_must_be_empty() {
    assert!(user::init(None));
    assert!(!user::init(Some((false, false))));
    assert_eq!(
        user::window_line(true),
        b"[USER] User window 0x640000000000..0x640004000000 ready\n"
    );
    assert!(String::from_utf8(user::window_line(false)).unwrap().contains("ALREADY MAPPED"));
}
