use mmurtl_rs::arch::arm64::virtio_mmio::{probe, SlotRegs, VirtioMmio, MAGIC};
use mmurtl_rs::fs::exfat::disk::{DiskOp, DiskReply};
use mmurtl_rs::io::IoOp;
use mmurtl_rs::memory::frame_allocator::{FrameAllocator, PhysRange};
use mmurtl_rs::pci::PciDevice;
use mmurtl_rs::virtio::blk::{self, BlkDevice, SelfTestPhase, SelfTestResult};
use mmurtl_rs::virtio::net::{self, ArpStep, NetDevice};
use mmurtl_rs::virtio::pci::{self, VirtioLegacy};
use mmurtl_rs::virtio::queue::{ring_pages, used_chain, Desc, Virtqueue, WaitUsed, DESC_F_NEXT, DESC_F_WRITE};
use mmurtl_rs::virtio::{attach, dma_alloc, join64, DmaRegion, Driver, Transport};

fn pci_device(vendor_id: u16, device_id: u16, bar0: u32) -> PciDevice {
    PciDevice {
        bus: 0,
        device: 3,
        function: 0,
        vendor_id,
        device_id,
        class: 1,
        subclass: 0,
        prog_if: 0,
        revision: 0,
        bar0,
        bar1: 0,
    }
}

#[test]
fn ring_memory_is_laid_out() {
    // 256 descriptors: 4096 bytes, avail 518, used from 8192 on: 2054 more.
    assert_eq!(ring_pages(256), 3);
    assert_eq!(ring_pages(8), 2);
    let q = Virtqueue::new(256, 0x10_0000);
    assert_eq!(q.ring_addrs(), (0x10_0000, 0x10_1000, 0x10_2000));
    assert_eq!(q.size(), 256);
}

#[test]
fn chains_are_linked_and_published() {
    let mut q = Virtqueue::new(4, 0);
    let head = q.submit(&[(0x1000, 16, false), (0x2000, 512, true), (0x1010, 1, true)]).unwrap();
    assert_eq!(head, 0);
    assert_eq!(q.desc(0), Desc { addr: 0x1000, len: 16, flags: DESC_F_NEXT, next: 1 });
    assert_eq!(q.desc(1), Desc { addr: 0x2000, len: 512, flags: DESC_F_WRITE | DESC_F_NEXT, next: 2 });
    let last = q.desc(2);
    assert_eq!((last.addr, last.len, last.flags), (0x1010, 1, DESC_F_WRITE));
    assert_eq!(q.published(), (1, 0, 0));
    assert_eq!(q.in_flight(0), Some(3));
    assert_eq!(q.in_flight(1), None);
    assert_eq!(q.in_flight(99), None);
}

#[test]
fn chains_without_descriptors_are_refused() {
    let mut q = Virtqueue::new(2, 0);
    assert_eq!(q.submit(&[(0, 1, false), (0, 1, false), (0, 1, false)]), None);
    assert!(q.submit(&[(0, 1, false), (0, 1, false)]).is_some());
    assert_eq!(q.submit(&[(0, 1, false)]), None);
}

#[test]
fn completion_undoes_submit() {
    let mut q = Virtqueue::new(4, 0);
    let bufs = [(0x1000, 16, false), (0x2000, 512, true)];
    let head = q.submit(&bufs).unwrap();
    assert_eq!(q.pop_used(2, 0, 0, 0), None);
    assert_eq!(q.pop_used(2, 1, head as u32, 512), Some((head, 512)));
    assert_eq!(q.in_flight(head), None);
    assert_eq!(q.submit(&bufs), Some(head));
    assert_eq!(q.published(), (2, 1, head));
    assert_eq!(q.used_slot(), 1);
}

#[test]
fn fresh_queues_agree_with_their_device() {
    let t = VirtioLegacy { io: 0xC000 };
    let (q, _) = blk::init_queue(&t, 4, 0x10_0000).unwrap();
    assert_eq!(q.published().0, 0);
    assert_eq!(q.used_slot(), 0);
    assert!(!q.has_used(0));
    for i in 0..4 {
        assert_eq!(q.desc(i), Desc { addr: 0, len: 0, flags: 0, next: i + 1 });
        assert_eq!(q.in_flight(i), None);
    }
    let (rx, mut tx, _) = net::init_queues(&t, 4, 8, 0x10_0000, 0x11_0000, 0x12_0000).unwrap();
    assert_eq!(rx.published().0, 4);
    assert!(!rx.has_used(0) && !tx.has_used(0));
    assert_eq!(tx.published().0, 0);
    assert_eq!(tx.submit(&[(0, 1, false)]), Some(0));
}

#[test]
fn used_entries_name_chains_by_their_low_half() {
    assert_eq!(used_chain(0x0005_0003), 3);
    let mut q = Virtqueue::new(4, 0);
    q.submit(&[(0, 1, false)]).unwrap();
    assert_eq!(q.pop_used(1, 1, 0x7_0000, 9), Some((0, 9)));
    q.skip_used();
    assert_eq!(q.used_slot(), 2);
    assert_eq!(q.in_flight(0), None);
}

#[test]
fn completion_of_another_request_frees_it() {
    let mut d = blk_device();
    let a = blk::read_sectors(&mut d, 0, 512).unwrap();
    let b = blk::read_sectors(&mut d, 1, 512).unwrap();
    assert!(!d.finish_request(b.head, Some((a.head as u32, 0)), 0));
    assert!(d.failed);
    assert_eq!(d.queue.in_flight(a.head), None);
    assert_eq!(d.queue.in_flight(b.head), Some(3));
    assert_eq!(d.queue.used_slot(), 1);
}

#[test]
fn waits_end_by_completion_or_timeout() {
    let q = Virtqueue::new(4, 0);
    assert!(!q.has_used(0));
    assert!(q.has_used(1));
    assert_eq!(q.wait_used(1, 5, 5), WaitUsed::Ready);
    assert_eq!(q.wait_used(0, 4, 5), WaitUsed::DelayMs);
    assert_eq!(q.wait_used(0, 5, 5), WaitUsed::TimedOut);
}

#[test]
fn drivers_by_device_id() {
    assert_eq!(attach(1), Driver::Net);
    assert_eq!(attach(2), Driver::Blk);
    assert_eq!(attach(16), Driver::Unhandled);
    assert_eq!(join64(0x5566_7788, 0x1122_3344), 0x1122_3344_5566_7788);
}

#[test]
fn dma_memory_is_contiguous() {
    let mut fa = FrameAllocator::init(&[PhysRange { start: 0x10_0000, end: 0x40_0000 }], &[], 0);
    let r = dma_alloc(&mut fa, 4, 0xFFFF_8000_0000_0000).unwrap();
    assert_eq!(r, DmaRegion { phys: 0x20_1000, virt: 0xFFFF_8000_0020_1000, size: 0x4000 });
    assert_eq!(dma_alloc(&mut fa, 4096, 0), None);
}

#[test]
fn legacy_devices_need_an_io_bar() {
    assert!(VirtioLegacy::new(&pci_device(0x1AF4, 0x1001, 0xC000), 0).is_none());
    assert!(VirtioLegacy::new(&pci_device(0x1AF4, 0x1001, 0xFEBF_FFF8), 0).is_none());
    let (t, ops) = VirtioLegacy::new(&pci_device(0x1AF4, 0x1001, 0xC001), 0x0010_0000).unwrap();
    assert_eq!(t.io, 0xC000);
    assert_eq!(
        ops,
        [
            IoOp::Out32 { port: 0xCF8, value: 0x8000_1804 },
            IoOp::Out32 { port: 0xCFC, value: 0x0010_0007 },
            IoOp::Out8 { port: 0xC012, value: 0 },
            IoOp::Out8 { port: 0xC012, value: 1 },
            IoOp::Out8 { port: 0xC012, value: 3 },
        ]
    );
    assert_eq!(t.config_read32(4), [IoOp::In32 { port: 0xC018 }]);
    assert_eq!(Transport::driver_ok(&t), [IoOp::Out8 { port: 0xC012, value: 7 }]);
    assert_eq!(t.name(), "legacy virtio-pci");
    assert!(!t.modern());
}

#[test]
fn virtio_functions_are_found() {
    let devices = [
        pci_device(0x8086, 0x1001, 0),
        pci_device(0x1AF4, 0x1001, 0xC001),
        pci_device(0x1AF4, 0x1000, 0xC101),
        pci_device(0x1AF4, 0x1005, 0),
    ];
    assert_eq!(
        pci::init(&devices),
        [(1, Driver::Blk), (2, Driver::Net), (3, Driver::Unhandled)]
    );
}

fn blk_device() -> BlkDevice<VirtioLegacy> {
    let t = VirtioLegacy { io: 0xC000 };
    let (queue, ops) = blk::init_queue(&t, 256, 0x10_0000).unwrap();
    assert_eq!(
        ops,
        [
            IoOp::Out16 { port: 0xC00E, value: 0 },
            IoOp::Out32 { port: 0xC008, value: 0x100 },
            IoOp::Out8 { port: 0xC012, value: 7 },
        ]
    );
    BlkDevice {
        transport: t,
        queue,
        req: DmaRegion { phys: 0x20_0000, virt: 0x20_0000, size: 4096 },
        data: DmaRegion { phys: 0x20_1000, virt: 0x20_1000, size: 4096 },
        capacity_sectors: 100,
        failed: false,
    }
}

#[test]
fn block_device_init_asks_for_the_queue() {
    let t = VirtioLegacy { io: 0xC000 };
    assert_eq!(
        blk::init(&t),
        [
            IoOp::In32 { port: 0xC000 },
            IoOp::Out32 { port: 0xC004, value: 0 },
            IoOp::Out16 { port: 0xC00E, value: 0 },
            IoOp::In16 { port: 0xC00C },
        ]
    );
    assert!(blk::init_queue(&t, 0, 0x10_0000).is_none());
}

#[test]
fn block_requests_have_three_parts() {
    let mut d = blk_device();
    let p = blk::read_sectors(&mut d, 7, 1024).unwrap();
    assert_eq!(p.header[0..4], [0, 0, 0, 0]);
    assert_eq!(p.header[8], 7);
    assert_eq!(p.header[16], 0xFF);
    assert_eq!(p.header.len(), 17);
    assert_eq!(p.notify, [IoOp::Out16 { port: 0xC010, value: 0 }]);
    assert_eq!(d.queue.desc(0).addr, 0x20_0000);
    assert_eq!(d.queue.desc(1), Desc { addr: 0x20_1000, len: 1024, flags: 3, next: 2 });
    assert_eq!(d.queue.desc(2).addr, 0x20_0010);
    assert!(d.finish_request(p.head, Some((0, 1025)), 0));

    let p = blk::write_sectors(&mut d, 99, 512).unwrap();
    assert_eq!(p.header[0], 1);
    assert_eq!(d.queue.desc(1).flags, DESC_F_NEXT);
    // The device reports an error: the request fails, the device does not.
    assert!(!d.finish_request(p.head, Some((p.head as u32, 1)), 1));
    assert!(!d.failed);
}

#[test]
fn sectors_beyond_the_end_are_refused() {
    let mut d = blk_device();
    assert!(blk::read_sectors(&mut d, 100, 512).is_none());
    assert!(blk::read_sectors(&mut d, 99, 1024).is_none());
    assert!(blk::read_sectors(&mut d, u64::MAX, 512).is_none());
    assert!(blk::read_sectors(&mut d, 98, 1024).is_some());
}

#[test]
fn failed_device_fails_fast() {
    let mut d = blk_device();
    let p = blk::read_sectors(&mut d, 0, 512).unwrap();
    assert!(!d.finish_request(p.head, None, 0));
    assert!(d.failed);
    assert!(blk::read_sectors(&mut d, 0, 512).is_none());

    let mut d = blk_device();
    let p = blk::read_sectors(&mut d, 0, 512).unwrap();
    assert!(!d.finish_request(p.head, Some((p.head as u32 + 1, 0)), 0));
    assert!(d.failed);
    let some = Some(d);
    assert!(!blk::available(&some));
    assert_eq!(blk::capacity_sectors(&some), 100);
    assert_eq!(blk::capacity_sectors::<VirtioLegacy>(&None), 0);
}

fn self_test(sector: &mut Option<Vec<u8>>, writable: bool, corrupt: bool) -> SelfTestResult {
    let mut t = blk::self_test(10);
    while let Some(op) = t.next_op() {
        let reply = match op {
            DiskOp::Read { lba, count } => {
                assert_eq!((lba, count), (9, 1));
                match sector {
                    Some(s) => DiskReply::Data(s.clone()),
                    None => DiskReply::Failed,
                }
            },
            DiskOp::Write { lba, data } => {
                assert_eq!(lba, 9);
                if writable {
                    *sector = Some(data);
                    if corrupt {
                        sector.as_mut().unwrap()[100] ^= 1;
                    }
                    DiskReply::Written
                } else {
                    DiskReply::Failed
                }
            },
        };
        t.feed(reply);
    }
    match t.phase {
        SelfTestPhase::Ended(r) => r,
        _ => unreachable!(),
    }
}

#[test]
fn self_test_restores_the_sector() {
    let mut s = Some(vec![0xA5; 512]);
    assert_eq!(self_test(&mut s, true, false), SelfTestResult::Passed);
    assert_eq!(s, Some(vec![0xA5; 512]));
    assert_eq!(self_test(&mut s, true, true), SelfTestResult::Mismatch);
    assert_eq!(self_test(&mut s, false, false), SelfTestResult::WriteFailed);
    assert_eq!(self_test(&mut None, true, false), SelfTestResult::ReadFailed);
}

#[test]
fn self_test_pattern() {
    let mut t = blk::self_test(1);
    t.feed(DiskReply::Data(vec![0; 512]));
    match t.next_op() {
        Some(DiskOp::Write { lba, data }) => {
            assert_eq!(lba, 0);
            assert_eq!(&data[..38], b"MMURTL/RS phase-7 virtio-blk self-test");
            assert_eq!((data[38], data[64], data[127], data[128]), (0, 0, 63, 0));
        },
        _ => panic!("no write"),
    }
}

fn net_device() -> NetDevice<VirtioLegacy> {
    let t = VirtioLegacy { io: 0xC100 };
    let (rx, tx, ops) = net::init_queues(&t, 16, 16, 0x10_0000, 0x11_0000, 0x12_0000).unwrap();
    assert_eq!(ops.len(), 4);
    NetDevice {
        transport: t,
        rx,
        tx,
        rx_buf: DmaRegion { phys: 0x12_0000, virt: 0x12_0000, size: 0x4000 },
        tx_buf: DmaRegion { phys: 0x13_0000, virt: 0x13_0000, size: 4096 },
        mac: [0x52, 0x54, 0, 0x12, 0x34, 0x56],
        failed: false,
    }
}

#[test]
fn network_device_posts_its_buffers() {
    let d = net_device();
    for i in 0..8u16 {
        assert_eq!(d.rx.desc(i).addr, 0x12_0000 + 2048 * i as u64);
        assert_eq!(d.rx.in_flight(i as u16), Some(1));
    }
    assert_eq!(d.rx.in_flight(8), None);
    let t = VirtioLegacy { io: 0xC100 };
    assert!(net::init_queues(&t, 0, 16, 0, 0, 0).is_none());
    assert!(net::init_queues(&t, 16, 0, 0, 0, 0).is_none());
    assert_eq!(net::init(&t), [IoOp::In32 { port: 0xC100 }]);
    assert_eq!(net::init_features(&t, 0xFFFF_FFFF)[0], IoOp::Out32 { port: 0xC104, value: 0x20 });
    assert_eq!(net::init_live(&t).len(), 2);
}

#[test]
fn frames_get_the_legacy_header() {
    let mut d = net_device();
    let p = d.send_frame(&[1, 2, 3]).unwrap();
    assert_eq!(p.packet, [0, 0, 0, 0, 0, 0, 0, 0, 0, 0, 1, 2, 3]);
    assert_eq!(d.tx.desc(p.head).len, 13);
    assert!(d.finish_send(p.head, Some((p.head as u32, 0))));
    let p = d.send_frame(&[1]).unwrap();
    assert!(!d.finish_send(p.head, None));
    assert!(d.send_frame(&[1]).is_none());
    assert_eq!(d.recv_frame(0, 60, 100), None);
    assert_eq!(net::mac(&Some(d)), [0x52, 0x54, 0, 0x12, 0x34, 0x56]);
    assert_eq!(net::mac::<VirtioLegacy>(&None), [0; 6]);
}

#[test]
fn received_frames_lose_the_header() {
    let mut d = net_device();
    assert_eq!(d.recv_frame(3, 70, 1500), Some((0x12_0000 + 3 * 2048 + 10, 60)));
    assert_eq!(d.recv_frame(3, 70, 20), Some((0x12_0000 + 3 * 2048 + 10, 20)));
    assert_eq!(d.recv_frame(0, 5, 20), Some((0x12_000A, 0)));
    assert_eq!(d.recycle(3), [IoOp::Out16 { port: 0xC110, value: 0 }]);
    assert_eq!(d.rx.desc(3).addr, 0x12_0000 + 3 * 2048);
    assert_eq!(d.rx.in_flight(3), Some(1));
}

#[test]
fn arp_request_and_reply() {
    let mac = [2, 4, 6, 8, 10, 12];
    let f = net::arp_frame(&mac);
    assert_eq!(f.len(), 42);
    assert_eq!(f[0..6], [0xFF; 6]);
    assert_eq!(f[6..12], mac);
    assert_eq!(f[12..22], [8, 6, 0, 1, 8, 0, 6, 4, 0, 1]);
    assert_eq!(f[28..32], [10, 0, 2, 15]);
    assert_eq!(f[38..42], [10, 0, 2, 2]);
    assert_eq!(net::arp_demo(&f), None);
    let mut reply = f;
    reply[21] = 2;
    reply[28..32].copy_from_slice(&[10, 0, 2, 2]);
    assert_eq!(net::arp_demo(&reply), Some(mac));
    assert_eq!(net::arp_demo(&reply[..41]), None);
}

#[test]
fn arp_wait_ends() {
    let mac = [2, 4, 6, 8, 10, 12];
    let request = net::arp_frame(&mac);
    let mut reply = request.clone();
    reply[21] = 2;
    reply[28..32].copy_from_slice(&[10, 0, 2, 2]);
    assert_eq!(net::arp_step(0, None), ArpStep::NoReply);
    assert_eq!(net::arp_step(0, Some(&reply)), ArpStep::Reply(mac));
    assert_eq!(net::arp_step(9, Some(&reply)), ArpStep::Reply(mac));
    let mut seen = 0;
    for i in 0..9 {
        assert_eq!(net::arp_step(seen, Some(&request)), ArpStep::Again { tries: i + 1 });
        seen = i + 1;
    }
    assert_eq!(net::arp_step(seen, Some(&request)), ArpStep::NoReply);
}

#[test]
fn mac_addresses_are_printed() {
    let mut out = Vec::new();
    net::write_mac(&mut out, &[0x52, 0x54, 0, 0xAB, 0x34, 0x5F]);
    assert_eq!(String::from_utf8(out).unwrap().to_lowercase(), "52:54:00:ab:34:5f");
}

#[test]
fn mmio_transport_sets_up_queues() {
    let t = VirtioMmio { base: 0x0A00_0000, modern: true };
    assert!(t.modern());
    let q = Virtqueue::new(8, 0x1_2345_6000);
    let ops = t.setup_queue(1, &q);
    assert_eq!(ops[0], IoOp::Write32 { addr: 0x0A00_0030, value: 1 });
    assert!(ops.contains(&IoOp::Write32 { addr: 0x0A00_0038, value: 8 }));
    assert!(ops.contains(&IoOp::Write32 { addr: 0x0A00_0080, value: 0x2345_6000 }));
    assert!(ops.contains(&IoOp::Write32 { addr: 0x0A00_0084, value: 1 }));
    assert_eq!(ops[ops.len() - 1], IoOp::Write32 { addr: 0x0A00_0044, value: 1 });
    assert_eq!(
        Transport::notify(&t, 3),
        [IoOp::Barrier, IoOp::Write32 { addr: 0x0A00_0050, value: 3 }]
    );
    assert!(t.features_accepted(8));
    assert!(!t.features_accepted(7));
    assert_eq!(t.queue_limit(1024), 256);
}

#[test]
fn mmio_legacy_devices_get_page_frames() {
    let (t, ops) = VirtioMmio::new(0x0A00_0000, 1);
    assert!(!t.modern);
    assert_eq!(ops[3], IoOp::Write32 { addr: 0x0A00_0028, value: 4096 });
    let ops = t.setup_queue(0, &Virtqueue::new(8, 0x1_2345_6000));
    assert_eq!(ops[3], IoOp::Write32 { addr: 0x0A00_0040, value: 0x12_3456 });
    assert!(t.features_accepted(0));
    let (t, ops) = VirtioMmio::new(0x0A00_0000, 2);
    assert!(t.modern);
    assert_eq!(ops.len(), 3);
}

#[test]
fn mmio_slots_are_probed() {
    let empty = SlotRegs { magic: MAGIC, device_id: 0, version: 1 };
    let other = SlotRegs { magic: 0, device_id: 2, version: 1 };
    let disk = SlotRegs { magic: MAGIC, device_id: 2, version: 1 };
    assert_eq!(probe(&[empty, disk, other, disk]), [1, 3]);
}

#[test]
fn ring_memory_holds_what_was_submitted() {
    let mut q = Virtqueue::new(2, 0x8000);
    let head = q.submit(&[(0x1000, 16, false), (0x2000, 512, true)]).unwrap();
    assert_eq!(head, 0);
    let base = 0xFFFF_8000_0000_8000;
    assert_eq!(
        q.memory_ops(0xFFFF_8000_0000_0000),
        vec![
            IoOp::Write64 { addr: base, value: 0x1000 },
            IoOp::Write32 { addr: base + 8, value: 16 },
            IoOp::Write16 { addr: base + 12, value: 1 },
            IoOp::Write16 { addr: base + 14, value: 1 },
            IoOp::Write64 { addr: base + 16, value: 0x2000 },
            IoOp::Write32 { addr: base + 24, value: 512 },
            IoOp::Write16 { addr: base + 28, value: 2 },
            IoOp::Write16 { addr: base + 30, value: 0 },
            IoOp::Write16 { addr: base + 36, value: 0 },
            IoOp::Write16 { addr: base + 38, value: 0 },
            IoOp::Barrier,
            IoOp::Write16 { addr: base + 34, value: 1 },
            IoOp::Write16 { addr: base + 32, value: 0 },
        ]
    );
    assert_eq!(q.used_idx_op(0), IoOp::Read16 { addr: 0x9002 });
    assert_eq!(
        q.used_entry_ops(0),
        (IoOp::Read32 { addr: 0x9004 }, IoOp::Read32 { addr: 0x9008 })
    );
}
