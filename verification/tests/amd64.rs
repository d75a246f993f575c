use std::collections::BTreeMap;

use mmurtl_rs::apic::LocalApic;
use mmurtl_rs::arch::amd64;
use mmurtl_rs::arch::amd64::boot::{kernel_main, memory_report, BootStep};
use mmurtl_rs::arch::amd64::context::{
    kernel_context, on_switch_to_user, schedule_and_switch, syscall_regs, syscall_return, user_context,
};
use mmurtl_rs::arch::amd64::memory::{
    self, ensure_phys_mapped, heap_extend, heap_init, identity_map_executable, map_user_page,
    page_attributes, phys_to_virt, total_usable_mib, EnsureMapped, EnsureResult, HeapMap, HeapResult,
    MemoryRegion, HEAP_START,
};
use mmurtl_rs::arch::amd64::{CpuMap, cpu_index, set_cpu_index};
use mmurtl_rs::gdt::KernelStacks;
use mmurtl_rs::io::IoOp;
use mmurtl_rs::memory::page_table::{
    query_page, translate_virtual, PageError, PageResult, PageWalk, TableOp, TableReply, NO_CACHE,
    PRESENT,
};
use mmurtl_rs::smp::Cpus;

const APIC: LocalApic = LocalApic { virt: 0xFEE0_0000, enabled: true, ticks_per_10ms: 625_000 };
const NO_APIC: LocalApic = LocalApic { virt: 0, enabled: false, ticks_per_10ms: 0 };

const ROOT: u64 = 0x1000;

struct Tables {
    mem: BTreeMap<u64, u64>,
    next_frame: u64,
    last_frame: u64,
}

impl Tables {
    fn new(frames: u64) -> Tables {
        Tables { mem: BTreeMap::new(), next_frame: 0x10_0000, last_frame: 0x10_0000 + 4096 * frames }
    }

    fn perform(&mut self, op: TableOp) -> TableReply {
        match op {
            TableOp::Read { addr } => TableReply::Entry(*self.mem.get(&addr).unwrap_or(&0)),
            TableOp::Write { addr, value } => {
                self.mem.insert(addr, value);
                TableReply::Done
            },
            TableOp::Fill { table, entries } => {
                for (i, e) in entries.iter().enumerate() {
                    self.mem.insert(table + 8 * i as u64, *e);
                }
                TableReply::Done
            },
            TableOp::Alloc => {
                if self.next_frame < self.last_frame {
                    self.next_frame += 4096;
                    TableReply::Frame(Some(self.next_frame - 4096))
                } else {
                    TableReply::Frame(None)
                }
            },
        }
    }

    fn page(&mut self, walk: PageWalk) -> PageResult {
        let mut walk = walk;
        while let Some(op) = walk.next_op() {
            let reply = self.perform(op);
            walk.feed(reply);
        }
        walk.result().unwrap()
    }

    fn heap(&mut self, map: HeapMap) -> HeapResult {
        let mut map = map;
        while let Some(op) = map.next_op() {
            let reply = self.perform(op);
            map.feed(reply);
        }
        map.result().unwrap()
    }

    fn ensure(&mut self, map: EnsureMapped) -> (EnsureResult, Vec<u64>) {
        let mut map = map;
        while let Some(op) = map.next_op() {
            let reply = self.perform(op);
            map.feed(reply);
        }
        (map.result().unwrap(), map.forced)
    }
}

#[test]
fn memory_map_is_taken() {
    let regions = [
        MemoryRegion { start: 0, end: 0x9_F000, usable: true },
        MemoryRegion { start: 0xF_0000, end: 0x10_0000, usable: false },
        MemoryRegion { start: 0x10_0000, end: 0x210_0000, usable: true },
    ];
    assert_eq!(total_usable_mib(&regions), 32);
    let (fa, free, total) = memory::init(&regions);
    // Low memory stays reserved.
    assert_eq!(fa.free_count(), 8192 - 257);
    assert_eq!((free, total), (30, 32));
    assert_eq!(phys_to_virt(0x1234, 0xFFFF_8000_0000_0000), 0xFFFF_8000_0000_1234);
    let mut out = Vec::new();
    memory_report(&mut out, &regions, Some(0x1000_0000_0000));
    assert_eq!(
        String::from_utf8(out).unwrap(),
        "[INFO] Memory regions: 3\n\
         [INFO] Physical memory offset: 0x0000100000000000\n\
         [INFO] Usable memory: 32 MiB\n"
    );
    let mut out = Vec::new();
    memory_report(&mut out, &[], None);
    assert_eq!(
        String::from_utf8(out).unwrap(),
        "[INFO] Memory regions: 0\n\
         [WARN] Physical memory not mapped by bootloader\n\
         [INFO] Usable memory: 0 MiB\n"
    );
}

#[test]
fn only_the_first_regions_are_taken() {
    let mut regions = vec![MemoryRegion { start: 0x10_0000, end: 0x110_0000, usable: true }];
    for i in 0..70u64 {
        let start = 0x1000_0000 + i * 0x10_0000;
        regions.push(MemoryRegion { start, end: start + 0x1000, usable: true });
    }
    let (fa, _, _) = memory::init(&regions);
    assert_eq!(fa.free_count(), 4096 - 257 + 63);
}

#[test]
fn heap_is_mapped_and_grows() {
    let mut t = Tables::new(3000);
    let (start, end, map) = heap_init(ROOT);
    assert_eq!((start, end), (HEAP_START, HEAP_START + 0x40_0000));
    assert_eq!(t.heap(map), HeapResult::Mapped);
    assert_eq!(
        t.page(query_page(ROOT, HEAP_START + 0x3F_F000)),
        PageResult::Flags(Some(0x8000_0000_0000_0003))
    );
    assert_eq!(t.page(translate_virtual(ROOT, end)), PageResult::Address(None));
    let (grown, map) = heap_extend(ROOT, end, 1);
    assert_eq!(grown, 0x20_0000);
    assert_eq!(t.heap(map), HeapResult::Mapped);
    assert_ne!(t.page(translate_virtual(ROOT, end)), PageResult::Address(None));
    assert_eq!(heap_extend(ROOT, end, 0x20_0001).0, 0x40_0000);
}

#[test]
fn heap_needs_frames() {
    let mut t = Tables::new(10);
    let (_, _, map) = heap_init(ROOT);
    assert_eq!(t.heap(map), HeapResult::OutOfMemory);
    let mut t = Tables::new(2);
    let (_, _, map) = heap_init(ROOT);
    assert!(matches!(
        t.heap(map),
        HeapResult::Refused(PageResult::Failed(PageError::OutOfMemory(_)))
    ));
}

#[test]
fn user_pages_have_their_rights() {
    let mut t = Tables::new(20);
    let va = 0x6400_0000_1000;
    let rights = |t: &mut Tables, va: u64| match t.page(memory::query_page(ROOT, va)) {
        PageResult::Flags(f) => page_attributes(f),
        _ => unreachable!(),
    };
    assert_eq!(rights(&mut t, va), None);
    assert_eq!(t.page(map_user_page(ROOT, va, 0x5_0000, false, true)), PageResult::Changed);
    assert_eq!(t.page(map_user_page(ROOT, va + 4096, 0x5_1000, true, false)), PageResult::Changed);
    assert_eq!(rights(&mut t, va), Some((true, false)));
    assert_eq!(rights(&mut t, va + 4096), Some((true, true)));
    assert_eq!(t.page(query_page(ROOT, va)), PageResult::Flags(Some(5)));
    assert_eq!(
        t.page(query_page(ROOT, va + 4096)),
        PageResult::Flags(Some(0x8000_0000_0000_0007))
    );
}

#[test]
fn device_ranges_become_accessible() {
    let mut t = Tables::new(20);
    let offset = 0xFFFF_8000_0000_0000;
    let map = ensure_phys_mapped(ROOT, offset, 0xFEB0_0800, 0x1000, true);
    assert_eq!(t.ensure(map), (EnsureResult::Mapped, vec![]));
    for page in [0xFEB0_0000, 0xFEB0_1000] {
        assert_eq!(
            t.page(translate_virtual(ROOT, offset + page)),
            PageResult::Address(Some(page))
        );
        assert_eq!(
            t.page(query_page(ROOT, offset + page)),
            PageResult::Flags(Some(0x8000_0000_0000_001B))
        );
    }
    assert_eq!(t.page(translate_virtual(ROOT, offset + 0xFEB0_2000)), PageResult::Address(None));
}

#[test]
fn mapped_ranges_are_made_uncacheable_once() {
    let mut t = Tables::new(20);
    let offset = 0xFFFF_8000_0000_0000;
    t.ensure(ensure_phys_mapped(ROOT, offset, 0x9000, 0x2000, false));
    assert_eq!(
        t.ensure(ensure_phys_mapped(ROOT, offset, 0x9000, 0x1000, true)),
        (EnsureResult::Mapped, vec![0x9000])
    );
    match t.page(query_page(ROOT, offset + 0x9000)) {
        PageResult::Flags(Some(f)) => assert_ne!(f & NO_CACHE, 0),
        _ => unreachable!(),
    }
    match t.page(query_page(ROOT, offset + 0xA000)) {
        PageResult::Flags(Some(f)) => assert_eq!(f & NO_CACHE, 0),
        _ => unreachable!(),
    }
    assert_eq!(
        t.ensure(ensure_phys_mapped(ROOT, offset, 0x9000, 0x1000, true)),
        (EnsureResult::Mapped, vec![])
    );
    let mut empty = Tables::new(0);
    assert!(matches!(
        empty.ensure(ensure_phys_mapped(ROOT, offset, 0x9000, 1, false)).0,
        EnsureResult::Refused(_)
    ));
}

#[test]
fn trampoline_is_mapped_to_itself() {
    let mut t = Tables::new(20);
    assert_eq!(t.ensure(identity_map_executable(ROOT, 0x8000)).0, EnsureResult::Mapped);
    assert_eq!(t.page(translate_virtual(ROOT, 0x8123)), PageResult::Address(Some(0x8123)));
    assert_eq!(t.page(query_page(ROOT, 0x8000)), PageResult::Flags(Some(PRESENT | 2)));
}

#[test]
fn first_frames_of_tasks() {
    let k = kernel_context(0x4000, 0x8000);
    assert_eq!((k.rip, k.cs, k.rflags, k.rsp, k.ss), (0x4000, 8, 0x202, 0x8000, 0x10));
    let mut u = user_context(0x6400_0000_1000, 0x6400_000F_F000, 42, 0x8000);
    assert_eq!((u.cs, u.ss, u.rsp, u.rdi), (0x23, 0x1B, 0x6400_000F_F000, 42));
    let words = u.to_words();
    assert_eq!(words.len(), 20);
    assert_eq!((words[8], words[15], words[19]), (42, 0x6400_0000_1000, 0x1B));
    u.rax = 3;
    u.r8 = 5;
    let r = syscall_regs(&u);
    assert_eq!((r.number, r.arg1, r.arg5, r.privilege), (3, 42, 5, 3));
    syscall_return(&mut u, 7);
    assert_eq!((u.rax, u.rdi), (7, 42));
}

#[test]
fn switches_acknowledge_and_set_the_stack() {
    assert_eq!(schedule_and_switch(&APIC), [IoOp::Write32 { addr: 0xFEE0_00B0, value: 0 }]);
    assert_eq!(schedule_and_switch(&NO_APIC), [IoOp::Out8 { port: 0x20, value: 0x20 }]);
    let mut stacks = KernelStacks::new();
    stacks.init_ap(0);
    on_switch_to_user(&mut stacks, 0, 0x9000);
    assert_eq!(stacks.rsp0[0], Some(0x9000));
}

#[test]
fn recorded_cpu_index_is_found() {
    let mut map = CpuMap::new();
    set_cpu_index(&mut map, &APIC, 0x0500_0000, 2);
    assert_eq!(cpu_index(&map, &APIC, 0x0500_0000), 2);
    assert_eq!(cpu_index(&map, &APIC, 0x0600_0000), 0);
    assert_eq!(cpu_index(&map, &NO_APIC, 0x0500_0000), 0);
    assert_eq!(amd64::hw_cpu_id(&APIC, 0x0500_0000), 5);
    assert_eq!(amd64::hw_cpu_id(&NO_APIC, 0x0500_0000), 0);
}

#[test]
fn ticks_and_interrupts_by_mode() {
    assert!(amd64::ipi_available(&APIC));
    assert!(!amd64::ipi_available(&NO_APIC));
    assert_eq!(
        amd64::send_resched_ipi(&APIC, 2)[1],
        IoOp::Write32 { addr: 0xFEE0_0300, value: 0x4030 }
    );
    assert_eq!(amd64::cpus_online(&Cpus::new()), 1);
    assert_eq!(amd64::start_tick(100, false, &APIC), APIC.start_timer(100));
    // 1,193,182 / 100 is 11,931: 0x2E9B.
    assert_eq!(
        amd64::start_tick(100, true, &NO_APIC),
        [
            IoOp::Out8 { port: 0x43, value: 0x36 },
            IoOp::Out8 { port: 0x40, value: 0x9B },
            IoOp::Out8 { port: 0x40, value: 0x2E },
            IoOp::OutModify8 { port: 0x21, clear: 1, set: 0 },
        ]
    );
    assert!(amd64::start_tick(100, false, &NO_APIC).is_empty());
    assert_eq!(amd64::delay_ms(10, 0)[2], IoOp::Out8 { port: 0x42, value: 0x9B });
    assert!(amd64::sync_icache(0x1000, 64).is_empty());
}

#[test]
fn boot_is_announced_step_by_step() {
    let mut out = Vec::new();
    let mut step = BootStep::Gdt;
    while let Some(next) = kernel_main(step, &mut out) {
        step = next;
    }
    assert_eq!(step, BootStep::Virtio);
    let text = String::from_utf8(out).unwrap();
    let lines: Vec<&str> = text.lines().collect();
    assert_eq!(lines.len(), 11);
    assert_eq!(lines[0], "[INIT] GDT...");
    assert_eq!(lines[6], "[INIT] Scheduler...");
    assert_eq!(lines[7], "[INIT] SMP...");
    assert_eq!(lines[10], "[INIT] Virtio drivers...");
}
