//! virtio-blk: block storage driver.
//!
//! One virtqueue. Each request is a chain of three descriptors: the request
//! header (type and sector), the data (512 bytes per sector), and a status
//! byte that the device writes. Requests are synchronous: submit, notify, poll
//! the used ring.

use vstd::prelude::*;
use vstd::string::StringSliceAdditionalSpecFns;
use crate::bytes::{le32_bytes, le64_bytes, push_le32, push_le64, same_bytes};
use crate::fs::exfat::disk::{disk_read, disk_wf, extent, readable, Access, Disk, DiskOp, DiskReply};
use crate::io::{join_ops, IoOp};
use super::queue::{chain_of, fresh, used_chain, QueueBuf, QueueModel, Virtqueue};
use super::{DmaRegion, Transport};

verus! {

pub const SECTOR_SIZE: usize = 512;

pub const REQ_TYPE_READ: u32 = 0;

pub const REQ_TYPE_WRITE: u32 = 1;

/// Most sectors in a request (bounded by the single-page data buffer).
pub const MAX_SECTORS_PER_REQ: usize = 8;

/// A virtio-blk device.
pub struct BlkDevice<T: Transport> {
    pub transport: T,
    pub queue: Virtqueue,
    /// One page: request header (16 bytes) and status byte (offset 16).
    pub req: DmaRegion,
    /// One page: data buffer (up to 8 sectors).
    pub data: DmaRegion,
    pub capacity_sectors: u64,
    /// Set after a timeout or a mismatched completion. A timed-out request
    /// leaves the device owning the descriptors and the shared buffers: it may
    /// complete at any later moment, so neither can be trusted again before a
    /// reset. Until then every request fails.
    pub failed: bool,
}

impl<T: Transport> BlkDevice<T> {
    pub open spec fn inv(&self) -> bool {
        &&& self.transport.wf()
        &&& self.queue.inv()
        &&& self.req.phys <= 0x10_0000_0000_0000
    }
}

/// Whether a device is available, and not failed.
pub fn available<T: Transport>(dev: &Option<BlkDevice<T>>) -> (r: bool)
    ensures
        r == (*dev is Some && !dev->0.failed),
{
    match dev {
        Some(d) => !d.failed,
        None => false,
    }
}

/// Device capacity in 512-byte sectors (0 if there is no device).
pub fn capacity_sectors<T: Transport>(dev: &Option<BlkDevice<T>>) -> (r: u64)
    ensures
        r == if *dev is Some { dev->0.capacity_sectors } else { 0 },
{
    match dev {
        Some(d) => d.capacity_sectors,
        None => 0,
    }
}

/// Begins to initialize a device: its features, of which none is needed for
/// reads and writes, and the size of its queue, which is read last.
pub fn init<T: Transport>(t: &T) -> (r: Vec<IoOp>)
    requires
        t.wf(),
    ensures
        r@ == t.host_features_ops() + t.set_guest_features_ops(0) + t.queue_max_ops(0),
{
    join_ops(join_ops(t.host_features(), t.set_guest_features(0)), t.queue_max(0))
}

/// The queue of a device, by the register that tells its size: `None` where
/// it is missing. `ring_phys` is its ring memory of `ring_pages` pages. Also
/// the accesses that set the queue up and make the device live.
pub fn init_queue<T: Transport>(t: &T, raw_size: u32, ring_phys: u64) -> (r: Option<
    (Virtqueue, Vec<IoOp>),
>)
    requires
        t.wf(),
        ring_phys <= 0x10_0000_0000_0000,
    ensures
        match r {
            None => t.queue_limit_of(raw_size) == 0,
            Some((q, ops)) => {
                &&& q.inv()
                &&& q@ == fresh(t.queue_limit_of(raw_size), ring_phys)
                &&& q@.size > 0
                &&& ops@ == t.setup_queue_ops(0, q@.size, q@.ring_addrs()) + t.driver_ok_ops()
            },
        },
{
    let size: u16 = t.queue_limit(raw_size);
    if size == 0 {
        return None;
    }
    let q = Virtqueue::new(size, ring_phys);
    let ops = join_ops(t.setup_queue(0, &q), t.driver_ok());
    Some((q, ops))
}

/// The header and the preset status byte of a request.
pub open spec fn header_bytes(write: bool, sector: u64) -> Seq<u8> {
    le32_bytes(if write { REQ_TYPE_WRITE } else { REQ_TYPE_READ }) + le32_bytes(0) + le64_bytes(sector)
        + seq![0xFFu8]
}

/// The chain of a request for `len` bytes.
pub open spec fn request_chain(req: DmaRegion, data: DmaRegion, write: bool, len: u32) -> Seq<QueueBuf> {
    seq![
        (req.phys, 16u32, false),
        (data.phys, len, !write),
        ((req.phys + 16) as u64, 1u32, true),
    ]
}

/// The completion is that of the chain at `head`.
pub open spec fn completes(used: Option<(u32, u32)>, head: u16) -> bool {
    match used {
        Some((id, len)) => chain_of(id) == head,
        None => false,
    }
}

/// `post` is the queue `q` once the completion was taken from the used ring: a
/// chain of `n` that it names is free again. Where there is no completion, or
/// none of such a chain, the queue is as it was.
pub open spec fn taken(q: QueueModel, used: Option<(u32, u32)>, n: int, post: QueueModel) -> bool {
    match used {
        Some((id, len)) => if q.chains.contains_key(chain_of(id)) && q.chains[chain_of(id)].len() == n {
            q.completed(chain_of(id), post)
        } else {
            post == q
        },
        None => post == q,
    }
}

/// A request that was handed to the device.
pub struct Pending {
    /// Head of its chain.
    pub head: u16,
    /// What the request page is to hold before the device is notified.
    pub header: Vec<u8>,
    /// The accesses that notify the device.
    pub notify: Vec<IoOp>,
}

/// Whole sectors, as many as a request takes.
pub open spec fn request_size_ok(len: int) -> bool {
    512 <= len <= 4096 && len % 512 == 0
}

impl<T: Transport> BlkDevice<T> {
    /// The device takes the request: it has not failed, the sectors exist, and
    /// there are descriptors for it.
    pub open spec fn accepts(&self, sector: u64, len: int) -> bool {
        &&& !self.failed
        &&& sector + len / 512 <= self.capacity_sectors
        &&& self.queue@.free.len() >= 3
    }

    /// Hands a request for `len` bytes from `sector` on to the device; `None`
    /// where it does not take it. For a write the data page holds the data.
    pub fn begin_request(&mut self, write: bool, sector: u64, len: usize) -> (r: Option<Pending>)
        requires
            old(self).inv(),
            !old(self).failed ==> request_size_ok(len as int),
        ensures
            final(self).inv(),
            final(self).transport == old(self).transport,
            final(self).req == old(self).req,
            final(self).data == old(self).data,
            final(self).capacity_sectors == old(self).capacity_sectors,
            final(self).failed == old(self).failed,
            match r {
                None => !old(self).accepts(sector, len as int) && final(self).queue@
                    == old(self).queue@,
                Some(p) => {
                    &&& old(self).accepts(sector, len as int)
                    &&& p.head == old(self).queue@.free[0]
                    &&& p.header@ == header_bytes(write, sector)
                    &&& p.notify@ == old(self).transport.notify_ops(0)
                    &&& old(self).queue@.submitted(
                        request_chain(old(self).req, old(self).data, write, len as u32),
                        final(self).queue@,
                    )
                },
            },
    {
        if self.failed {
            return None;
        }
        let sectors: u64 = (len / 512) as u64;
        if sectors > self.capacity_sectors || sector > self.capacity_sectors - sectors {
            return None;
        }
        let mut header: Vec<u8> = Vec::new();
        push_le32(&mut header, if write { REQ_TYPE_WRITE } else { REQ_TYPE_READ });
        push_le32(&mut header, 0);
        push_le64(&mut header, sector);
        header.push(0xFF);
        assert(header@ =~= header_bytes(write, sector));
        let chain: [QueueBuf; 3] = [
            (self.req.phys, 16, false),
            (self.data.phys, len as u32, !write),
            (self.req.phys + 16, 1, true),
        ];
        assert(chain@ =~= request_chain(self.req, self.data, write, len as u32));
        match self.queue.submit(chain.as_slice()) {
            None => None,
            Some(head) => Some(Pending { head, header, notify: self.transport.notify(0) }),
        }
    }

    /// Takes what came of the request at `head`: the completion that the
    /// device put in the used ring, with the status byte, or `None` for a
    /// timeout. `true` if the request succeeded; then a read's data is in the
    /// data page. A timeout, or a completion of another chain, fails the
    /// device for good.
    pub fn finish_request(&mut self, head: u16, used: Option<(u32, u32)>, status: u8) -> (r: bool)
        requires
            old(self).inv(),
            old(self).queue@.chains.contains_key(head),
            old(self).queue@.chains[head].len() == 3,
        ensures
            final(self).inv(),
            final(self).transport == old(self).transport,
            final(self).req == old(self).req,
            final(self).data == old(self).data,
            final(self).capacity_sectors == old(self).capacity_sectors,
            ({
                let matched = completes(used, head);
                &&& r == (matched && status == 0)
                &&& final(self).failed == (old(self).failed || !matched)
                &&& taken(old(self).queue@, used, 3, final(self).queue@)
            }),
    {
        match used {
            None => {
                self.failed = true;
                false
            },
            Some((id, len)) => {
                let chain: u16 = used_chain(id);
                if self.queue.in_flight(chain) == Some(3) {
                    self.queue.reap(chain, 3, len);
                }
                if chain != head {
                    self.failed = true;
                    return false;
                }
                status == 0
            },
        }
    }
}

/// Hands a read of `len` bytes from `sector` on to the device.
pub fn read_sectors<T: Transport>(dev: &mut BlkDevice<T>, sector: u64, len: usize) -> (r: Option<Pending>)
    requires
        old(dev).inv(),
        !old(dev).failed ==> request_size_ok(len as int),
    ensures
        final(dev).inv(),
        final(dev).transport == old(dev).transport,
        final(dev).req == old(dev).req,
        final(dev).data == old(dev).data,
        final(dev).capacity_sectors == old(dev).capacity_sectors,
        final(dev).failed == old(dev).failed,
        r is Some <==> old(dev).accepts(sector, len as int),
        r is Some ==> r->0.header@ == header_bytes(false, sector) && r->0.head
            == old(dev).queue@.free[0] && r->0.notify@ == old(dev).transport.notify_ops(0)
            && old(dev).queue@.submitted(
            request_chain(old(dev).req, old(dev).data, false, len as u32),
            final(dev).queue@,
        ),
        r is None ==> final(dev).queue@ == old(dev).queue@,
{
    dev.begin_request(false, sector, len)
}

/// Hands a write of `len` bytes from `sector` on to the device; the data page
/// holds the data.
pub fn write_sectors<T: Transport>(dev: &mut BlkDevice<T>, sector: u64, len: usize) -> (r: Option<Pending>)
    requires
        old(dev).inv(),
        !old(dev).failed ==> request_size_ok(len as int),
    ensures
        final(dev).inv(),
        final(dev).transport == old(dev).transport,
        final(dev).req == old(dev).req,
        final(dev).data == old(dev).data,
        final(dev).capacity_sectors == old(dev).capacity_sectors,
        final(dev).failed == old(dev).failed,
        r is Some <==> old(dev).accepts(sector, len as int),
        r is Some ==> r->0.header@ == header_bytes(true, sector) && r->0.head
            == old(dev).queue@.free[0] && r->0.notify@ == old(dev).transport.notify_ops(0)
            && old(dev).queue@.submitted(
            request_chain(old(dev).req, old(dev).data, true, len as u32),
            final(dev).queue@,
        ),
        r is None ==> final(dev).queue@ == old(dev).queue@,
{
    dev.begin_request(true, sector, len)
}

/// What the self-test writes: a signature, zeros, the bytes 0 to 63 from byte
/// 64 on, and zeros.
pub open spec fn pattern() -> Seq<u8> {
    let sig = "MMURTL/RS phase-7 virtio-blk self-test".spec_bytes();
    Seq::new(
        512,
        |i: int|
            if i < sig.len() {
                sig[i]
            } else if 64 <= i < 128 {
                (i - 64) as u8
            } else {
                0u8
            },
    )
}

fn make_pattern() -> (r: Vec<u8>)
    ensures
        r@ == pattern(),
{
    let sig = "MMURTL/RS phase-7 virtio-blk self-test".as_bytes();
    proof {
        reveal_strlit("MMURTL/RS phase-7 virtio-blk self-test");
        vstd::string::is_ascii_spec_bytes("MMURTL/RS phase-7 virtio-blk self-test");
    }
    let mut out: Vec<u8> = Vec::new();
    let mut i: usize = 0;
    while i < 512
        invariant
            i <= 512,
            sig@ == "MMURTL/RS phase-7 virtio-blk self-test".spec_bytes(),
            sig@.len() <= 64,
            out@ =~= pattern().take(i as int),
        decreases 512 - i,
    {
        if i < sig.len() {
            out.push(sig[i]);
        } else if 64 <= i && i < 128 {
            out.push((i - 64) as u8);
        } else {
            out.push(0);
        }
        i += 1;
    }
    assert(pattern().take(512) =~= pattern());
    out
}

/// What the self-test ends with.
#[derive(Debug, Clone, Copy, PartialEq, Eq, Structural)]
pub enum SelfTestResult {
    /// The sector was written, verified and restored.
    Passed,
    ReadFailed,
    WriteFailed,
    /// The sector did not read back, or was not restored.
    Mismatch,
}

/// How far a self-test has come.
#[derive(Clone, Copy)]
pub enum SelfTestPhase {
    ReadOriginal,
    WritePattern,
    ReadBack,
    Restore,
    Ended(SelfTestResult),
}

/// Boot-time self-test: writes a pattern to the last sector, reads it back,
/// and restores the sector's contents, as the disk may hold a file system.
pub struct SelfTest {
    pub sector: u64,
    pub phase: SelfTestPhase,
    pub original: Vec<u8>,
    pub pattern: Vec<u8>,
    pub read_back: Vec<u8>,
}

/// The end of a self-test: the sector gets its contents back.
pub open spec fn restored(d: Disk, lba: int, original: Seq<u8>, read_back: Seq<u8>) -> (
    SelfTestResult,
    Disk,
) {
    if d.contains_key(lba) {
        (
            if read_back == pattern() {
                SelfTestResult::Passed
            } else {
                SelfTestResult::Mismatch
            },
            d.insert(lba, original),
        )
    } else {
        (SelfTestResult::Mismatch, d)
    }
}

/// A self-test from where the pattern is to be read back.
pub open spec fn pattern_read(d: Disk, lba: int, original: Seq<u8>) -> (SelfTestResult, Disk) {
    match disk_read(d, lba, 1) {
        Some(read_back) => restored(d, lba, original, read_back),
        None => (SelfTestResult::ReadFailed, d),
    }
}

/// A self-test from where the pattern is to be written.
pub open spec fn pattern_written(d: Disk, lba: int, original: Seq<u8>) -> (SelfTestResult, Disk) {
    if d.contains_key(lba) {
        pattern_read(d.insert(lba, pattern()), lba, original)
    } else {
        (SelfTestResult::WriteFailed, d)
    }
}

impl SelfTest {
    pub open spec fn wf(self) -> bool {
        &&& self.pattern@ == pattern()
        &&& match self.phase {
            SelfTestPhase::ReadOriginal => true,
            SelfTestPhase::WritePattern => self.original@.len() == 512,
            SelfTestPhase::ReadBack => self.original@.len() == 512,
            SelfTestPhase::Restore => self.original@.len() == 512,
            SelfTestPhase::Ended(_) => true,
        }
    }

    /// The disk access that the machine needs next.
    pub open spec fn op(self) -> Option<Access> {
        let lba = self.sector as int;
        match self.phase {
            SelfTestPhase::ReadOriginal => Some(Access::Read { lba, count: 1 }),
            SelfTestPhase::WritePattern => Some(Access::Write { lba, data: self.pattern@ }),
            SelfTestPhase::ReadBack => Some(Access::Read { lba, count: 1 }),
            SelfTestPhase::Restore => Some(Access::Write { lba, data: self.original@ }),
            SelfTestPhase::Ended(_) => None,
        }
    }

    /// Decreases with every access.
    pub open spec fn work(self) -> int {
        match self.phase {
            SelfTestPhase::ReadOriginal => 4,
            SelfTestPhase::WritePattern => 3,
            SelfTestPhase::ReadBack => 2,
            SelfTestPhase::Restore => 1,
            SelfTestPhase::Ended(_) => 0,
        }
    }

    /// What the machine ends with on disk `d`, and the disk then.
    pub open spec fn outcome(self, d: Disk) -> (SelfTestResult, Disk) {
        let lba = self.sector as int;
        match self.phase {
            SelfTestPhase::ReadOriginal => match disk_read(d, lba, 1) {
                Some(original) => pattern_written(d, lba, original),
                None => (SelfTestResult::ReadFailed, d),
            },
            SelfTestPhase::WritePattern => pattern_written(d, lba, self.original@),
            SelfTestPhase::ReadBack => pattern_read(d, lba, self.original@),
            SelfTestPhase::Restore => restored(d, lba, self.original@, self.read_back@),
            SelfTestPhase::Ended(r) => (r, d),
        }
    }

    /// The disk access that the machine needs next; `None` once it has ended.
    pub fn next_op(&self) -> (r: Option<DiskOp>)
        ensures
            match r {
                Some(op) => self.op() == Some(op@),
                None => self.op() is None,
            },
    {
        match self.phase {
            SelfTestPhase::ReadOriginal => Some(DiskOp::Read { lba: self.sector, count: 1 }),
            SelfTestPhase::WritePattern => Some(
                DiskOp::Write { lba: self.sector, data: copied(&self.pattern) },
            ),
            SelfTestPhase::ReadBack => Some(DiskOp::Read { lba: self.sector, count: 1 }),
            SelfTestPhase::Restore => Some(
                DiskOp::Write { lba: self.sector, data: copied(&self.original) },
            ),
            SelfTestPhase::Ended(_) => None,
        }
    }

    /// Takes what came of the access.
    pub fn feed(&mut self, reply: DiskReply)
        requires
            old(self).wf(),
            old(self).op() is Some,
            old(self).op()->0.fits(reply),
        ensures
            final(self).wf(),
            final(self).sector == old(self).sector,
            forall|d: Disk|
                old(self).op()->0.answered(d, reply) ==> #[trigger] final(self).outcome(
                    old(self).op()->0.after(d),
                ) == old(self).outcome(d),
            0 <= final(self).work() < old(self).work(),
    {
        match self.phase {
            SelfTestPhase::ReadOriginal => match reply {
                DiskReply::Data(b) => {
                    self.original = b;
                    self.phase = SelfTestPhase::WritePattern;
                },
                _ => {
                    self.phase = SelfTestPhase::Ended(SelfTestResult::ReadFailed);
                },
            },
            SelfTestPhase::WritePattern => {
                self.phase = match reply {
                    DiskReply::Written => SelfTestPhase::ReadBack,
                    _ => SelfTestPhase::Ended(SelfTestResult::WriteFailed),
                };
            },
            SelfTestPhase::ReadBack => match reply {
                DiskReply::Data(b) => {
                    self.read_back = b;
                    self.phase = SelfTestPhase::Restore;
                },
                _ => {
                    self.phase = SelfTestPhase::Ended(SelfTestResult::ReadFailed);
                },
            },
            SelfTestPhase::Restore => {
                let restored = match reply {
                    DiskReply::Written => true,
                    _ => false,
                };
                let same = same_bytes(self.read_back.as_slice(), self.pattern.as_slice());
                self.phase = SelfTestPhase::Ended(
                    if restored && same {
                        SelfTestResult::Passed
                    } else {
                        SelfTestResult::Mismatch
                    },
                );
            },
            SelfTestPhase::Ended(_) => {},
        }
    }
}

fn copied(v: &Vec<u8>) -> (r: Vec<u8>)
    ensures
        r@ == v@,
{
    let mut out: Vec<u8> = Vec::new();
    out.extend_from_slice(v.as_slice());
    assert(out@ =~= v@);
    out
}

/// Starts the self-test of a device with sectors.
pub fn self_test(capacity_sectors: u64) -> (r: SelfTest)
    requires
        capacity_sectors > 0,
    ensures
        r.wf(),
        r.sector == capacity_sectors - 1,
        r.phase is ReadOriginal,
        forall|d: Disk|
            #[trigger] r.outcome(d) == match disk_read(d, capacity_sectors - 1, 1) {
                Some(original) => pattern_written(d, capacity_sectors - 1, original),
                None => (SelfTestResult::ReadFailed, d),
            },
{
    SelfTest {
        sector: capacity_sectors - 1,
        phase: SelfTestPhase::ReadOriginal,
        original: Vec::new(),
        pattern: make_pattern(),
        read_back: Vec::new(),
    }
}

/// A failed device takes no request.
pub proof fn law_failed_device_fails_fast<T: Transport>(dev: BlkDevice<T>, sector: u64, len: int)
    requires
        dev.failed,
    ensures
        !dev.accepts(sector, len),
{
}

/// On a disk that works, the self-test of a sector that exists passes, and
/// leaves the disk as it was.
pub proof fn law_self_test_restores(t: SelfTest, d: Disk)
    requires
        disk_wf(d),
        d.contains_key(t.sector as int),
        t.phase is ReadOriginal,
    ensures
        t.outcome(d) == (SelfTestResult::Passed, d),
{
    let s = t.sector as int;
    let w = d.insert(s, pattern());
    assert(readable(d, s, 1));
    assert(extent(d, s, 1) =~= d[s]);
    assert(readable(w, s, 1));
    assert(extent(w, s, 1) =~= pattern());
    assert(w.insert(s, d[s]) =~= d);
}

/// The header of a request names it: at byte 0 the word 1 for a write and 0
/// for a read, at byte 8 the sector, low byte first; the status behind it is
/// preset to a value that no device gives.
pub proof fn law_header_names_the_request(write: bool, sector: u64)
    ensures
        ({
            let h = header_bytes(write, sector);
            &&& h.len() == 17
            &&& h[0] == (if write {
                1int
            } else {
                0
            })
            &&& h[1] == 0 && h[2] == 0 && h[3] == 0
            &&& h[4] == 0 && h[5] == 0 && h[6] == 0 && h[7] == 0
            &&& sector == h[8] + 0x100 * h[9] + 0x1_0000 * h[10] + 0x100_0000 * h[11] + 0x1_0000_0000
                * h[12] + 0x100_0000_0000 * h[13] + 0x1_0000_0000_0000 * h[14] + 0x100_0000_0000_0000
                * h[15]
            &&& h[16] == 0xFF
        }),
{
    let b = le64_bytes(sector);
    crate::bytes::law_byte_order_written(0, 0, sector);
    let h = header_bytes(write, sector);
    assert(h[8] == b[0] && h[9] == b[1] && h[10] == b[2] && h[11] == b[3]);
    assert(h[12] == b[4] && h[13] == b[5] && h[14] == b[6] && h[15] == b[7]);
}

/// Different requests have different headers.
pub proof fn law_headers_differ(write: bool, sector: u64, write2: bool, sector2: u64)
    requires
        header_bytes(write, sector) == header_bytes(write2, sector2),
    ensures
        write == write2,
        sector == sector2,
{
    law_header_names_the_request(write, sector);
    law_header_names_the_request(write2, sector2);
}

/// The chain of a request: the device reads the header, then fills the data
/// page for a read or reads it for a write, then gives the status in the byte
/// behind the header.
pub proof fn law_request_chain(req: DmaRegion, data: DmaRegion, write: bool, len: u32)
    requires
        req.phys + 16 <= u64::MAX,
    ensures
        ({
            let chain = request_chain(req, data, write, len);
            &&& chain.len() == 3
            &&& chain[0].0 == req.phys && chain[0].1 == 16 && !chain[0].2
            &&& chain[1].0 == data.phys && chain[1].1 == len && chain[1].2 == !write
            &&& chain[2].0 == req.phys + 16 && chain[2].1 == 1 && chain[2].2
        }),
{
}

/// Every sector of a request that is taken exists.
pub proof fn law_taken_requests_keep_to_the_disk<T: Transport>(
    dev: BlkDevice<T>,
    sector: u64,
    len: int,
    i: int,
)
    requires
        dev.accepts(sector, len),
        request_size_ok(len),
        0 <= i < len,
    ensures
        sector + i / 512 < dev.capacity_sectors,
        len == 512 * (len / 512),
        1 <= len / 512 <= 8,
{
}

/// Whole sectors from one to eight, and only they, make a request.
pub proof fn law_request_sizes(len: int)
    ensures
        request_size_ok(len) <==> exists|n: int| 1 <= n <= 8 && len == #[trigger] (512 * n),
{
    if request_size_ok(len) {
        let n = len / 512;
        assert(len == 512 * n);
    }
}

/// The self-test ends well only where the sector read back what was written;
/// a sector that cannot be read or written is told as such, and the disk is
/// then as it was.
pub proof fn law_self_test_tells_what_failed(t: SelfTest, d: Disk)
    requires
        disk_wf(d),
        t.phase is ReadOriginal,
        !d.contains_key(t.sector as int),
    ensures
        t.outcome(d) == (SelfTestResult::ReadFailed, d),
{
    assert(!readable(d, t.sector as int, 1));
}

/// What the self-test writes is no sector of zeros: it can be told from one
/// that was never written.
pub proof fn law_pattern_can_be_told()
    ensures
        pattern().len() == 512,
        pattern()[65] == 1,
        pattern()[127] == 63,
        pattern()[128] == 0,
{
    reveal_strlit("MMURTL/RS phase-7 virtio-blk self-test");
    vstd::string::is_ascii_spec_bytes("MMURTL/RS phase-7 virtio-blk self-test");
}

} // verus!
