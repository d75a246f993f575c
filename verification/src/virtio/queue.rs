//! Split virtqueues.

use vstd::prelude::*;
use crate::io::IoOp;

verus! {

/// The descriptor is followed by another.
pub const DESC_F_NEXT: u16 = 1;

/// The device writes to the buffer.
pub const DESC_F_WRITE: u16 = 2;

/// A buffer descriptor, as the device reads it.
#[derive(Debug, Clone, Copy, PartialEq, Eq, Structural)]
pub struct Desc {
    pub addr: u64,
    pub len: u32,
    pub flags: u16,
    pub next: u16,
}

/// A buffer to hand to the device: physical address, length, and whether the
/// device fills it.
pub type QueueBuf = (u64, u32, bool);

/// The driver's side of a split virtqueue. The descriptor table and the avail
/// ring are copied to the ring memory as they change; the used ring is the
/// device's.
pub struct Virtqueue {
    size: u16,
    desc: Vec<Desc>,
    avail_ring: Vec<u16>,
    avail_idx: u16,
    /// Head of the free-descriptor list (chained by `Desc::next`).
    free_head: u16,
    num_free: u16,
    last_used: u16,
    /// Length of the chain in flight that starts at a descriptor, else 0.
    chain_len: Vec<u16>,
    /// Physical address of the ring memory (descriptor table first).
    ring_phys: u64,
    /// Offsets of the avail and used rings within the ring memory.
    avail_offset: u64,
    used_offset: u64,
    /// The free descriptors in the order of the list.
    free: Ghost<Seq<u16>>,
    /// The descriptors of each chain in flight, by its head.
    chains: Ghost<Map<u16, Seq<u16>>>,
}

/// What a virtqueue holds: the descriptor table and the avail ring, the free
/// descriptors in order, and the chains in flight by their head.
#[verifier::ext_equal]
pub struct QueueModel {
    pub size: u16,
    pub desc: Seq<Desc>,
    pub avail_ring: Seq<u16>,
    pub avail_idx: u16,
    pub last_used: u16,
    pub free: Seq<u16>,
    pub chains: Map<u16, Seq<u16>>,
    pub ring_phys: u64,
}

/// Bytes of the descriptor table.
pub open spec fn desc_bytes(size: int) -> int {
    16 * size
}

/// Offset of the used ring: the page after descriptor table and avail ring.
pub open spec fn used_at(size: int) -> int {
    (desc_bytes(size) + 6 + 2 * size + 4095) / 4096 * 4096
}

/// Pages of the ring memory.
pub open spec fn pages_for(size: int) -> int {
    (used_at(size) + 6 + 8 * size + 4095) / 4096
}

impl QueueModel {
    /// Physical addresses of the descriptor table, the avail ring and the used
    /// ring.
    pub open spec fn ring_addrs(self) -> (u64, u64, u64) {
        (
            self.ring_phys,
            (self.ring_phys + desc_bytes(self.size as int)) as u64,
            (self.ring_phys + used_at(self.size as int)) as u64,
        )
    }

    /// The descriptors of `list` are distinct, exist, and each names the next.
    pub open spec fn linked(self, list: Seq<u16>) -> bool {
        &&& forall|i: int| 0 <= i < list.len() ==> #[trigger] list[i] < self.size
        &&& forall|i: int, j: int| 0 <= i < j < list.len() ==> #[trigger] list[i] != #[trigger] list[j]
        &&& forall|i: int|
            0 <= i < list.len() - 1 ==> self.desc[(#[trigger] list[i]) as int].next == list[i + 1]
    }

    /// No descriptor is both in `a` and in `b`.
    pub open spec fn apart(a: Seq<u16>, b: Seq<u16>) -> bool {
        forall|i: int, j: int|
            0 <= i < a.len() && 0 <= j < b.len() ==> #[trigger] a[i] != #[trigger] b[j]
    }

    /// Every descriptor is free or in one chain, at one place.
    pub open spec fn inv(self) -> bool {
        &&& self.desc.len() == self.size
        &&& self.avail_ring.len() == self.size
        &&& self.linked(self.free)
        &&& forall|h: u16| #[trigger]
            self.chains.contains_key(h) ==> {
                &&& self.chains[h].len() > 0
                &&& self.chains[h][0] == h
                &&& self.linked(self.chains[h])
                &&& Self::apart(self.chains[h], self.free)
            }
        &&& forall|h: u16, g: u16| #[trigger]
            self.chains.contains_key(h) && #[trigger] self.chains.contains_key(g) && h != g
                ==> Self::apart(self.chains[h], self.chains[g])
    }

    /// The chain for `bufs`, made of the first free descriptors.
    pub open spec fn chain_for(self, bufs: Seq<QueueBuf>) -> Seq<u16> {
        self.free.take(bufs.len() as int)
    }

    /// The descriptor of buffer `i` in the chain for `bufs`.
    pub open spec fn desc_for(self, bufs: Seq<QueueBuf>, i: int) -> Desc {
        let write: u16 = if bufs[i].2 { DESC_F_WRITE } else { 0 };
        if i + 1 < bufs.len() {
            Desc {
                addr: bufs[i].0,
                len: bufs[i].1,
                flags: write | DESC_F_NEXT,
                next: self.free[i + 1],
            }
        } else {
            Desc { addr: bufs[i].0, len: bufs[i].1, flags: write, next: 0 }
        }
    }

    /// `post` is this queue with `bufs` submitted: their chain is in flight,
    /// described and published in the avail ring.
    pub open spec fn submitted(self, bufs: Seq<QueueBuf>, post: QueueModel) -> bool {
        let chain = self.chain_for(bufs);
        let head = self.free[0];
        &&& post == (QueueModel {
            desc: post.desc,
            avail_ring: self.avail_ring.update(self.avail_idx as int % self.size as int, head),
            avail_idx: if self.avail_idx == u16::MAX { 0 } else { (self.avail_idx + 1) as u16 },
            free: self.free.skip(bufs.len() as int),
            chains: self.chains.insert(head, chain),
            ..self
        })
        &&& post.desc.len() == self.desc.len()
        &&& forall|i: int|
            0 <= i < bufs.len() ==> post.desc[(#[trigger] chain[i]) as int] == self.desc_for(bufs, i)
        &&& forall|k: int|
            0 <= k < self.desc.len() && !chain.contains(k as u16) ==> #[trigger] post.desc[k]
                == self.desc[k]
    }

    /// `post` is this queue with the chain at `head` completed: its
    /// descriptors lead the free list.
    pub open spec fn completed(self, head: u16, post: QueueModel) -> bool {
        let chain = self.chains[head];
        &&& post == (QueueModel {
            desc: post.desc,
            last_used: if self.last_used == u16::MAX { 0 } else { (self.last_used + 1) as u16 },
            free: chain + self.free,
            chains: self.chains.remove(head),
            ..self
        })
        &&& post.desc.len() == self.desc.len()
        &&& forall|k: int|
            0 <= k < self.desc.len() && k != chain.last() ==> #[trigger] post.desc[k] == self.desc[k]
        &&& ({
            let d = self.desc[chain.last() as int];
            post.desc[chain.last() as int] == Desc { next: post.desc[chain.last() as int].next, ..d }
        })
    }
}

/// A queue of `size` entries before anything was submitted: all descriptors
/// are free, in order, nothing is in flight, and both rings stand at zero, as
/// a device takes them that was handed the ring memory.
pub open spec fn fresh(size: u16, ring_phys: u64) -> QueueModel {
    QueueModel {
        size,
        desc: Seq::new(
            size as nat,
            |i: int| (Desc { addr: 0, len: 0, flags: 0, next: (i + 1) as u16 }),
        ),
        avail_ring: Seq::new(size as nat, |i: int| 0u16),
        avail_idx: 0,
        last_used: 0,
        free: Seq::new(size as nat, |i: int| i as u16),
        chains: Map::empty(),
        ring_phys,
    }
}

/// No ring memory is larger.
pub const RING_LIMIT: u64 = 0x20_0000;

impl QueueModel {
    /// Write `k` of the descriptor table, four for each descriptor, through a
    /// window `offset` above physical addresses.
    pub open spec fn table_write(self, offset: int, k: int) -> IoOp {
        let d = self.desc[k / 4];
        let at = offset + self.ring_phys + 16 * (k / 4);
        if k % 4 == 0 {
            IoOp::Write64 { addr: at as u64, value: d.addr }
        } else if k % 4 == 1 {
            IoOp::Write32 { addr: (at + 8) as u64, value: d.len }
        } else if k % 4 == 2 {
            IoOp::Write16 { addr: (at + 12) as u64, value: d.flags }
        } else {
            IoOp::Write16 { addr: (at + 14) as u64, value: d.next }
        }
    }

    /// Write of entry `k` of the avail ring.
    pub open spec fn avail_write(self, offset: int, k: int) -> IoOp {
        IoOp::Write16 {
            addr: (offset + self.ring_phys + desc_bytes(self.size as int) + 4 + 2 * k) as u64,
            value: self.avail_ring[k],
        }
    }

    /// The writes that bring the descriptor table and the avail ring to the
    /// ring memory: the index of the avail ring after all that it publishes.
    pub open spec fn memory_ops(self, offset: int) -> Seq<IoOp> {
        let avail = offset + self.ring_phys + desc_bytes(self.size as int);
        Seq::new(4 * self.size as nat, |k: int| self.table_write(offset, k)) + Seq::new(
            self.size as nat,
            |k: int| self.avail_write(offset, k),
        ) + seq![
            IoOp::Barrier,
            IoOp::Write16 { addr: (avail + 2) as u64, value: self.avail_idx },
            IoOp::Write16 { addr: avail as u64, value: 0 },
        ]
    }
}

/// The bytes that a write of the ring memory changes.
pub open spec fn written(op: IoOp) -> (int, int) {
    match op {
        IoOp::Write64 { addr, value } => (addr as int, addr + 8),
        IoOp::Write32 { addr, value } => (addr as int, addr + 4),
        IoOp::Write16 { addr, value } => (addr as int, addr + 2),
        _ => (0, 0),
    }
}

/// The writes of ring memory lie before the used ring, and no two of them
/// change the same byte: the device finds every field as it was written.
pub proof fn law_ring_writes_are_apart(m: QueueModel, offset: int, i: int, j: int)
    requires
        0 <= offset,
        offset + m.ring_phys + RING_LIMIT <= u64::MAX,
        m.desc.len() == m.size,
        m.avail_ring.len() == m.size,
        0 <= i < j < m.memory_ops(offset).len(),
        !(m.memory_ops(offset)[i] is Barrier),
        !(m.memory_ops(offset)[j] is Barrier),
    ensures
        ({
            let a = written(m.memory_ops(offset)[i]);
            let b = written(m.memory_ops(offset)[j]);
            &&& a.1 <= b.0 || b.1 <= a.0
            &&& offset + m.ring_phys <= a.0 && a.1 <= offset + m.ring_phys + used_at(m.size as int)
            &&& offset + m.ring_phys <= b.0 && b.1 <= offset + m.ring_phys + used_at(m.size as int)
            &&& used_at(m.size as int) + 6 + 8 * m.size <= 4096 * pages_for(m.size as int)
        }),
{
    lemma_write_place(m, offset, i);
    lemma_write_place(m, offset, j);
    let n = m.size as int;
    assert(used_at(n) >= 16 * n + 6 + 2 * n);
    assert(4096 * pages_for(n) >= used_at(n) + 6 + 8 * n);
}

/// Where a write of the ring memory lies.
proof fn lemma_write_place(m: QueueModel, offset: int, k: int)
    requires
        0 <= offset,
        offset + m.ring_phys + RING_LIMIT <= u64::MAX,
        0 <= k < m.memory_ops(offset).len(),
    ensures
        ({
            let n = m.size as int;
            let base = offset + m.ring_phys;
            let w = written(m.memory_ops(offset)[k]);
            if k < 4 * n {
                &&& w.0 == base + 16 * (k / 4) + if k % 4 == 0 {
                    0
                } else {
                    4 + 4 * (k % 4) - if k % 4 == 3 { 2int } else { 0 }
                }
                &&& w.1 == w.0 + if k % 4 == 0 {
                    8int
                } else if k % 4 == 1 {
                    4
                } else {
                    2
                }
            } else if k < 5 * n {
                w == (base + 16 * n + 4 + 2 * (k - 4 * n), base + 16 * n + 6 + 2 * (k - 4 * n))
            } else if k == 5 * n {
                m.memory_ops(offset)[k] is Barrier
            } else {
                w == (base + 16 * n + 2 * (5 * n + 2 - k), base + 16 * n + 2 * (5 * n + 3 - k))
            }
        }),
{
    let n = m.size as int;
    let ops = m.memory_ops(offset);
    assert(ops.len() == 5 * n + 3);
    if k < 4 * n {
        assert(ops[k] == m.table_write(offset, k));
    } else if k < 5 * n {
        assert(ops[k] == m.avail_write(offset, k - 4 * n));
    }
}

impl View for Virtqueue {
    type V = QueueModel;

    closed spec fn view(&self) -> QueueModel {
        QueueModel {
            size: self.size,
            desc: self.desc@,
            avail_ring: self.avail_ring@,
            avail_idx: self.avail_idx,
            last_used: self.last_used,
            free: self.free@,
            chains: self.chains@,
            ring_phys: self.ring_phys,
        }
    }
}

/// Distinct descriptors of a queue of `n` are at most `n`.
proof fn lemma_distinct_fit(s: Seq<u16>, n: int)
    requires
        forall|i: int| 0 <= i < s.len() ==> 0 <= #[trigger] s[i] < n,
        forall|i: int, j: int| 0 <= i < j < s.len() ==> #[trigger] s[i] != #[trigger] s[j],
        0 <= n,
    ensures
        s.len() <= n,
{
    let t = s.map_values(|x: u16| x as int);
    assert(t.no_duplicates()) by {
        assert forall|i: int, j: int| 0 <= i < t.len() && 0 <= j < t.len() && i != j implies t[i] != t[j] by {
            if i < j {
                assert(s[i] != s[j]);
            } else {
                assert(s[j] != s[i]);
            }
        }
    }
    t.unique_seq_to_set();
    let range = vstd::set_lib::set_int_range(0, n);
    vstd::set_lib::lemma_int_range(0, n);
    assert(t.to_set().subset_of(range)) by {
        assert forall|x: int| t.to_set().contains(x) implies range.contains(x) by {
            let i = choose|i: int| 0 <= i < t.len() && t[i] == x;
            assert(0 <= s[i] < n);
        }
    }
    vstd::set_lib::lemma_len_subset(t.to_set(), range);
}

/// Number of pages that the ring memory of a queue of `size` entries takes.
pub fn ring_pages(size: u16) -> (r: usize)
    ensures
        r == pages_for(size as int),
{
    let n: u64 = size as u64;
    let used: u64 = (16 * n + 6 + 2 * n + 4095) / 4096 * 4096;
    ((used + 6 + 8 * n + 4095) / 4096) as usize
}

impl Virtqueue {
    pub closed spec fn inv(&self) -> bool {
        &&& self@.inv()
        &&& self.free@.len() == self.num_free
        &&& self.num_free > 0 ==> self.free@[0] == self.free_head
        &&& self.avail_offset == desc_bytes(self.size as int)
        &&& self.used_offset == used_at(self.size as int)
        &&& self.ring_phys <= 0x10_0000_0000_0000
        &&& self.chain_len@.len() == self.size
        &&& forall|h: u16|
            0 <= h < self.size ==> #[trigger] self.chain_len@[h as int] == if self.chains@.contains_key(h) {
                self.chains@[h].len() as int
            } else {
                0
            }
    }

    /// A virtqueue of `size` entries in ring memory at `ring_phys`, with all
    /// descriptors free.
    pub fn new(size: u16, ring_phys: u64) -> (r: Self)
        requires
            ring_phys <= 0x10_0000_0000_0000,
        ensures
            r.inv(),
            r@ == fresh(size, ring_phys),
    {
        let n: u64 = size as u64;
        let mut desc: Vec<Desc> = Vec::new();
        let mut avail_ring: Vec<u16> = Vec::new();
        let mut chain_len: Vec<u16> = Vec::new();
        let mut i: u16 = 0;
        while i < size
            invariant
                i <= size,
                desc@ == Seq::new(
                    i as nat,
                    |k: int| (Desc { addr: 0, len: 0, flags: 0, next: (k + 1) as u16 }),
                ),
                avail_ring@ == Seq::new(i as nat, |k: int| 0u16),
                chain_len@ == Seq::new(i as nat, |k: int| 0u16),
            decreases size - i,
        {
            desc.push(Desc { addr: 0, len: 0, flags: 0, next: i + 1 });
            avail_ring.push(0);
            chain_len.push(0);
            i += 1;
        }
        let r = Virtqueue {
            size,
            desc,
            avail_ring,
            avail_idx: 0,
            free_head: 0,
            num_free: size,
            last_used: 0,
            chain_len,
            ring_phys,
            avail_offset: 16 * n,
            used_offset: (16 * n + 6 + 2 * n + 4095) / 4096 * 4096,
            free: Ghost(Seq::new(size as nat, |k: int| k as u16)),
            chains: Ghost(Map::empty()),
        };
        proof {
            let m = r@;
            assert(m.linked(m.free));
            assert(m =~= fresh(size, ring_phys));
        }
        r
    }

    /// What the invariant says of the model: every descriptor is free or in
    /// one chain, and the ring memory lies low enough for all its addresses.
    pub proof fn lemma_inv(&self)
        requires
            self.inv(),
        ensures
            self@.inv(),
            self@.ring_phys <= 0x10_0000_0000_0000,
    {
    }

    /// Number of entries.
    pub fn size(&self) -> (r: u16)
        ensures
            r == self@.size,
    {
        self.size
    }

    /// Physical addresses of the descriptor table, avail ring and used ring.
    pub fn ring_addrs(&self) -> (r: (u64, u64, u64))
        requires
            self.inv(),
        ensures
            r == self@.ring_addrs(),
            r.0 <= 0x10_0000_0000_0000,
    {
        (self.ring_phys, self.ring_phys + self.avail_offset, self.ring_phys + self.used_offset)
    }

    /// Descriptor `i`, as it is to be in the ring memory.
    pub fn desc(&self, i: u16) -> (r: Desc)
        requires
            self.inv(),
            i < self@.size,
        ensures
            r == self@.desc[i as int],
    {
        self.desc[i as usize]
    }

    /// Index of the avail ring, and the entry that was published last with
    /// its place, as they are to be in the ring memory.
    pub fn published(&self) -> (r: (u16, u16, u16))
        requires
            self.inv(),
            self@.size > 0,
        ensures
            r.0 == self@.avail_idx,
            r.1 == (self@.avail_idx + 0xFFFF) % 0x1_0000 % self@.size as int,
            r.2 == self@.avail_ring[r.1 as int],
    {
        let last: u16 = ((self.avail_idx as u32 + 0xFFFF) % 0x1_0000) as u16;
        let at: u16 = last % self.size;
        (self.avail_idx, at, self.avail_ring[at as usize])
    }

    /// The writes that bring the descriptor table and the avail ring to the
    /// ring memory, through a window `offset` above physical addresses.
    pub fn memory_ops(&self, offset: u64) -> (r: Vec<IoOp>)
        requires
            self.inv(),
            offset + self@.ring_phys + RING_LIMIT <= u64::MAX,
        ensures
            r@ == self@.memory_ops(offset as int),
    {
        let (table, avail, _) = self.ring_addrs();
        let mut ops: Vec<IoOp> = Vec::new();
        let mut i: u16 = 0;
        while i < self.size
            invariant
                i <= self.size,
                self.inv(),
                offset + self@.ring_phys + RING_LIMIT <= u64::MAX,
                table == self@.ring_phys,
                table <= 0x10_0000_0000_0000,
                ops@ =~= Seq::new(4 * i as nat, |k: int| self@.table_write(offset as int, k)),
            decreases self.size - i,
        {
            let d: Desc = self.desc[i as usize];
            let at: u64 = offset + table + 16 * i as u64;
            let ghost before = ops@;
            ops.push(IoOp::Write64 { addr: at, value: d.addr });
            ops.push(IoOp::Write32 { addr: at + 8, value: d.len });
            ops.push(IoOp::Write16 { addr: at + 12, value: d.flags });
            ops.push(IoOp::Write16 { addr: at + 14, value: d.next });
            assert forall|k: int| 0 <= k < 4 * (i + 1) implies #[trigger] ops@[k] == self@.table_write(
                offset as int,
                k,
            ) by {
                if k < 4 * i {
                    assert(ops@[k] == before[k]);
                }
            }
            i += 1;
        }
        let ghost first = ops@;
        let mut j: u16 = 0;
        while j < self.size
            invariant
                j <= self.size,
                self.inv(),
                offset + self@.ring_phys + RING_LIMIT <= u64::MAX,
                avail == self@.ring_phys + desc_bytes(self@.size as int),
                self@.ring_phys <= 0x10_0000_0000_0000,
                ops@ =~= first + Seq::new(j as nat, |k: int| self@.avail_write(offset as int, k)),
            decreases self.size - j,
        {
            ops.push(
                IoOp::Write16 { addr: offset + avail + 4 + 2 * j as u64, value: self.avail_ring[j as usize] },
            );
            j += 1;
        }
        ops.push(IoOp::Barrier);
        ops.push(IoOp::Write16 { addr: offset + avail + 2, value: self.avail_idx });
        ops.push(IoOp::Write16 { addr: offset + avail, value: 0 });
        assert(ops@ =~= self@.memory_ops(offset as int));
        ops
    }

    /// The read of the device's index of the used ring.
    pub fn used_idx_op(&self, offset: u64) -> (r: IoOp)
        requires
            self.inv(),
            offset + self@.ring_phys + RING_LIMIT <= u64::MAX,
        ensures
            r == (IoOp::Read16 {
                addr: (offset + self@.ring_phys + used_at(self@.size as int) + 2) as u64,
            }),
    {
        let (_, _, used) = self.ring_addrs();
        IoOp::Read16 { addr: offset + used + 2 }
    }

    /// The reads of the entry of the next completion: the chain, then the
    /// number of bytes that the device wrote.
    pub fn used_entry_ops(&self, offset: u64) -> (r: (IoOp, IoOp))
        requires
            self.inv(),
            self@.size > 0,
            offset + self@.ring_phys + RING_LIMIT <= u64::MAX,
        ensures
            ({
                let at = offset + self@.ring_phys + used_at(self@.size as int) + 4 + 8 * (
                self@.last_used as int % self@.size as int);
                r == (IoOp::Read32 { addr: at as u64 }, IoOp::Read32 { addr: (at + 4) as u64 })
            }),
    {
        let (_, _, used) = self.ring_addrs();
        let at: u64 = offset + used + 4 + 8 * self.used_slot() as u64;
        (IoOp::Read32 { addr: at }, IoOp::Read32 { addr: at + 4 })
    }

    /// The length of the chain in flight at `head`, if there is one.
    pub fn in_flight(&self, head: u16) -> (r: Option<u16>)
        requires
            self.inv(),
        ensures
            match r {
                Some(n) => self@.chains.contains_key(head) && self@.chains[head].len() == n,
                None => !self@.chains.contains_key(head),
            },
    {
        if head >= self.size {
            proof {
                if self@.chains.contains_key(head) {
                    assert(self@.chains[head][0] < self@.size);
                }
            }
            return None;
        }
        let n: u16 = self.chain_len[head as usize];
        if n == 0 {
            None
        } else {
            Some(n)
        }
    }

    /// Adds a descriptor chain and publishes it in the avail ring. Returns the
    /// chain's head, or `None` for no buffers or where there are not enough
    /// descriptors. The device is to be notified afterwards.
    pub fn submit(&mut self, bufs: &[QueueBuf]) -> (r: Option<u16>)
        requires
            old(self).inv(),
            bufs@.len() <= u16::MAX,
        ensures
            final(self).inv(),
            match r {
                Some(head) => {
                    &&& 0 < bufs@.len() <= old(self)@.free.len()
                    &&& head == old(self)@.free[0]
                    &&& old(self)@.submitted(bufs@, final(self)@)
                },
                None => {
                    &&& bufs@.len() == 0 || bufs@.len() > old(self)@.free.len()
                    &&& final(self)@ == old(self)@
                },
            },
    {
        let n: usize = bufs.len();
        if n == 0 || n as u16 > self.num_free {
            return None;
        }
        let ghost m0 = self@;
        let ghost chain = m0.chain_for(bufs@);
        let head: u16 = self.free_head;
        let mut idx: u16 = head;
        let mut next_free: u16 = 0;
        let mut i: usize = 0;
        while i < n
            invariant
                i <= n,
                n == bufs@.len(),
                0 < n <= m0.free.len(),
                m0.inv(),
                chain == m0.free.take(n as int),
                self.desc@.len() == m0.size,
                m0.size == self.size,
                i < n ==> idx == chain[i as int],
                i == n && n < m0.free.len() ==> next_free == m0.free[n as int],
                *self == (Virtqueue { desc: self.desc, ..*old(self) }),
                forall|k: int|
                    0 <= k < i ==> self.desc@[(#[trigger] chain[k]) as int] == m0.desc_for(bufs@, k),
                forall|k: int|
                    0 <= k < m0.size && !chain.take(i as int).contains(k as u16)
                        ==> #[trigger] self.desc@[k] == m0.desc[k],
            decreases n - i,
        {
            let ghost before = self.desc@;
            let (addr, len, device_writes) = bufs[i];
            let at: usize = idx as usize;
            proof {
                assert(m0.free[i as int] == chain[i as int]);
                assert(m0.free[i as int] < m0.size);
                assert(!chain.take(i as int).contains(idx)) by {
                    if chain.take(i as int).contains(idx) {
                        let k = choose|k: int| 0 <= k < i && chain[k] == idx;
                        assert(m0.free[k] != m0.free[i as int]);
                    }
                }
            }
            let mut d: Desc = self.desc[at];
            assert(d == m0.desc[at as int]);
            d.addr = addr;
            d.len = len;
            let write: u16 = if device_writes { DESC_F_WRITE } else { 0 };
            if i + 1 < n {
                d.flags = write | DESC_F_NEXT;
                assert(m0.desc[m0.free[i as int] as int].next == m0.free[i as int + 1]);
                idx = d.next;
                assert(chain[i as int + 1] == m0.free[i as int + 1]);
            } else {
                d.flags = write;
                next_free = d.next;
                proof {
                    if n < m0.free.len() {
                        assert(m0.desc[m0.free[i as int] as int].next == m0.free[i as int + 1]);
                    }
                }
                d.next = 0;
            }
            self.desc.set(at, d);
            proof {
                assert forall|k: int| 0 <= k < i + 1 implies self.desc@[(#[trigger] chain[k]) as int]
                    == m0.desc_for(bufs@, k) by {
                    if k < i {
                        assert(m0.free[k] != m0.free[i as int]);
                        assert(chain[k] != chain[i as int]);
                    }
                }
                assert forall|k: int|
                    0 <= k < m0.size && !chain.take(i as int + 1).contains(k as u16) implies
                    #[trigger] self.desc@[k] == m0.desc[k] by {
                    assert(chain.take(i as int + 1)[i as int] == chain[i as int]);
                    assert(!chain.take(i as int).contains(k as u16)) by {
                        if chain.take(i as int).contains(k as u16) {
                            let j = choose|j: int| 0 <= j < i && chain.take(i as int)[j] == k as u16;
                            assert(chain.take(i as int + 1)[j] == k as u16);
                        }
                    }
                    assert(before[k] == m0.desc[k]);
                }
            }
            i += 1;
        }
        assert(chain.take(n as int) =~= chain);
        self.num_free = self.num_free - n as u16;
        self.free_head = next_free;
        self.free = Ghost(m0.free.skip(n as int));
        self.chains = Ghost(m0.chains.insert(head, chain));
        assert(m0.free[0] < m0.size);
        let slot: usize = (self.avail_idx % self.size) as usize;
        self.avail_ring.set(slot, head);
        self.avail_idx = self.avail_idx.wrapping_add(1);
        self.chain_len.set(head as usize, n as u16);
        proof {
            let m = self@;
            lemma_submitted_inv(m0, bufs@, m);
            assert(m0.submitted(bufs@, m));
            assert forall|h: u16| 0 <= h < self.size implies #[trigger] self.chain_len@[h as int]
                == if self.chains@.contains_key(h) { self.chains@[h].len() as int } else { 0 } by {
                assert(old(self).chain_len@[h as int] == if m0.chains.contains_key(h) {
                    m0.chains[h].len() as int
                } else {
                    0
                });
            }
        }
        Some(head)
    }

    /// Reaps a completion: `used_idx` is the device's index of the used ring,
    /// `id` and `len` the entry at `used_slot`, whose low half names the chain.
    /// Returns the chain head and the number of bytes that the device wrote;
    /// `None` where there is none.
    pub fn pop_used(&mut self, chain_len: u16, used_idx: u16, id: u32, len: u32) -> (r: Option<
        (u16, u32),
    >)
        requires
            old(self).inv(),
            old(self)@.last_used != used_idx ==> {
                &&& old(self)@.chains.contains_key(chain_of(id))
                &&& old(self)@.chains[chain_of(id)].len() == chain_len
            },
        ensures
            final(self).inv(),
            if old(self)@.last_used == used_idx {
                r is None && final(self)@ == old(self)@
            } else {
                r == Some((chain_of(id), len)) && old(self)@.completed(chain_of(id), final(self)@)
            },
    {
        if self.last_used == used_idx {
            return None;
        }
        Some(self.reap(used_chain(id), chain_len, len))
    }

    /// Passes over a completion that names no chain in flight.
    pub fn skip_used(&mut self)
        requires
            old(self).inv(),
        ensures
            final(self).inv(),
            final(self)@ == (QueueModel {
                last_used: if old(self)@.last_used == u16::MAX {
                    0
                } else {
                    (old(self)@.last_used + 1) as u16
                },
                ..old(self)@
            }),
    {
        self.last_used = self.last_used.wrapping_add(1);
        assert(self@.linked(self@.free));
        assert forall|h: u16| #[trigger] self@.chains.contains_key(h) implies self@.linked(
            self@.chains[h],
        ) by {
            assert(old(self)@.chains.contains_key(h));
        }
    }

    /// Returns the chain at `head`, which completed, to the free list.
    pub fn reap(&mut self, head: u16, chain_len: u16, len: u32) -> (r: (u16, u32))
        requires
            old(self).inv(),
            old(self)@.chains.contains_key(head),
            old(self)@.chains[head].len() == chain_len,
        ensures
            final(self).inv(),
            r == (head, len),
            old(self)@.completed(head, final(self)@),
    {
        let ghost m0 = self@;
        let ghost chain = m0.chains[head];
        assert(chain[0] < m0.size);
        self.last_used = self.last_used.wrapping_add(1);
        let mut tail: u16 = head;
        let mut k: u16 = 1;
        while k < chain_len
            invariant
                1 <= k <= chain_len,
                chain.len() == chain_len,
                m0.linked(chain),
                self.desc@ == m0.desc,
                m0.desc.len() == m0.size,
                tail == chain[k - 1],
            decreases chain_len - k,
        {
            assert(chain[k - 1] < m0.size);
            assert(m0.desc[chain[k - 1] as int].next == chain[k as int]);
            tail = self.desc[tail as usize].next;
            k += 1;
        }
        assert(tail == chain.last());
        assert(chain[chain_len - 1] < m0.size);
        let mut d: Desc = self.desc[tail as usize];
        d.next = self.free_head;
        self.desc.set(tail as usize, d);
        self.free_head = head;
        proof {
            assert forall|i: int, j: int| 0 <= i < j < (chain + m0.free).len() implies #[trigger] (chain
                + m0.free)[i] != #[trigger] (chain + m0.free)[j] by {
                let all = chain + m0.free;
                if i < chain.len() && j >= chain.len() {
                    assert(chain[i] != m0.free[j - chain.len()]);
                } else if i < chain.len() {
                    assert(chain[i] != chain[j]);
                } else {
                    assert(m0.free[i - chain.len()] != m0.free[j - chain.len()]);
                }
            }
            assert forall|i: int| 0 <= i < (chain + m0.free).len() implies 0 <= #[trigger] (chain
                + m0.free)[i] < m0.size by {
                if i < chain.len() {
                    assert(chain[i] < m0.size);
                } else {
                    assert(m0.free[i - chain.len()] < m0.size);
                }
            }
            lemma_distinct_fit(chain + m0.free, m0.size as int);
        }
        self.num_free = self.num_free + chain_len;
        self.free = Ghost(chain + m0.free);
        self.chains = Ghost(m0.chains.remove(head));
        self.chain_len.set(head as usize, 0);
        proof {
            let m = self@;
            assert(m0.completed(head, m));
            lemma_completed_inv(m0, head, m, old(self).free_head);
            assert forall|h: u16| 0 <= h < self.size implies #[trigger] self.chain_len@[h as int]
                == if self.chains@.contains_key(h) { self.chains@[h].len() as int } else { 0 } by {
                assert(old(self).chain_len@[h as int] == if m0.chains.contains_key(h) {
                    m0.chains[h].len() as int
                } else {
                    0
                });
            }
        }
        (head, len)
    }

    /// The place in the used ring of the next completion.
    pub fn used_slot(&self) -> (r: u16)
        requires
            self@.size > 0,
        ensures
            r == self@.last_used as int % self@.size as int,
    {
        self.last_used % self.size
    }

    /// Whether the device has a completion, by its index of the used ring.
    pub fn has_used(&self, used_idx: u16) -> (r: bool)
        ensures
            r == (self@.last_used != used_idx),
    {
        self.last_used != used_idx
    }

    /// How a wait for a completion goes on after `waited` of `timeout_ms`
    /// milliseconds: the device's used index is asked once more than that.
    pub fn wait_used(&self, used_idx: u16, waited: u32, timeout_ms: u32) -> (r: WaitUsed)
        ensures
            r == if self@.last_used != used_idx {
                WaitUsed::Ready
            } else if waited < timeout_ms {
                WaitUsed::DelayMs
            } else {
                WaitUsed::TimedOut
            },
    {
        if self.last_used != used_idx {
            WaitUsed::Ready
        } else if waited < timeout_ms {
            WaitUsed::DelayMs
        } else {
            WaitUsed::TimedOut
        }
    }
}

/// The chain that an entry of the used ring names: its low half.
pub open spec fn chain_of(id: u32) -> u16 {
    (id % 0x1_0000) as u16
}

/// The chain that an entry of the used ring names.
pub fn used_chain(id: u32) -> (r: u16)
    ensures
        r == chain_of(id),
{
    (id % 0x1_0000) as u16
}

/// How a wait for a completion goes on.
#[derive(Debug, Clone, Copy, PartialEq, Eq, Structural)]
pub enum WaitUsed {
    /// A completion can be reaped.
    Ready,
    /// Wait a millisecond and ask again.
    DelayMs,
    /// The time is over.
    TimedOut,
}

/// Submitting keeps every descriptor free or in one chain.
proof fn lemma_submitted_inv(m0: QueueModel, bufs: Seq<QueueBuf>, m: QueueModel)
    requires
        m0.inv(),
        0 < bufs.len() <= m0.free.len(),
        m0.submitted(bufs, m),
    ensures
        m.inv(),
{
    let n = bufs.len() as int;
    let chain = m0.chain_for(bufs);
    let head = m0.free[0];
    assert forall|i: int| 0 <= i < n implies #[trigger] chain[i] == m0.free[i] by {}
    // The rest of the free list is untouched.
    assert(m.linked(m.free)) by {
        assert forall|i: int| 0 <= i < m.free.len() implies #[trigger] m.free[i] < m.size by {
            assert(m0.free[i + n] < m0.size);
        }
        assert forall|i: int, j: int| 0 <= i < j < m.free.len() implies #[trigger] m.free[i]
            != #[trigger] m.free[j] by {
            assert(m0.free[i + n] != m0.free[j + n]);
        }
        assert forall|i: int| 0 <= i < m.free.len() - 1 implies m.desc[(#[trigger] m.free[i]) as int].next
            == m.free[i + 1] by {
            let x = m0.free[i + n];
            assert(x < m0.size);
            assert(!chain.contains(x)) by {
                if chain.contains(x) {
                    let k = choose|k: int| 0 <= k < n && chain[k] == x;
                    assert(m0.free[k] != m0.free[i + n]);
                }
            }
            assert(m.desc[x as int] == m0.desc[x as int]);
            assert(m0.desc[m0.free[i + n] as int].next == m0.free[i + n + 1]);
        }
    }
    // The new chain.
    assert(m.linked(chain)) by {
        assert forall|i: int| 0 <= i < chain.len() implies #[trigger] chain[i] < m.size by {
            assert(m0.free[i] < m0.size);
        }
        assert forall|i: int, j: int| 0 <= i < j < chain.len() implies #[trigger] chain[i]
            != #[trigger] chain[j] by {
            assert(m0.free[i] != m0.free[j]);
        }
    }
    assert(QueueModel::apart(chain, m.free)) by {
        assert forall|i: int, j: int| 0 <= i < chain.len() && 0 <= j < m.free.len() implies
            #[trigger] chain[i] != #[trigger] m.free[j] by {
            assert(m0.free[i] != m0.free[j + n]);
        }
    }
    // The chains in flight are untouched.
    assert forall|h: u16| #[trigger] m0.chains.contains_key(h) implies m.linked(m0.chains[h])
        && QueueModel::apart(m0.chains[h], m.free) && QueueModel::apart(m0.chains[h], chain) && h
        != head by {
        let c = m0.chains[h];
        assert forall|i: int, j: int| 0 <= i < c.len() && 0 <= j < m.free.len() implies #[trigger] c[i]
            != #[trigger] m.free[j] by {
            assert(c[i] != m0.free[j + n]);
        }
        assert forall|i: int, j: int| 0 <= i < c.len() && 0 <= j < chain.len() implies #[trigger] c[i]
            != #[trigger] chain[j] by {
            assert(c[i] != m0.free[j]);
        }
        assert(c[0] != m0.free[0]);
        assert forall|i: int| 0 <= i < c.len() - 1 implies m.desc[(#[trigger] c[i]) as int].next == c[i
            + 1] by {
            assert(c[i] < m0.size);
            assert(!chain.contains(c[i])) by {
                if chain.contains(c[i]) {
                    let k = choose|k: int| 0 <= k < n && chain[k] == c[i];
                    assert(c[i] != chain[k]);
                }
            }
            assert(m.desc[c[i] as int] == m0.desc[c[i] as int]);
        }
    }
    assert forall|h: u16, g: u16| #[trigger]
        m.chains.contains_key(h) && #[trigger] m.chains.contains_key(g) && h != g implies
        QueueModel::apart(m.chains[h], m.chains[g]) by {
        if h == head {
            assert(m0.chains.contains_key(g));
            let c = m0.chains[g];
            assert forall|i: int, j: int| 0 <= i < chain.len() && 0 <= j < c.len() implies
                #[trigger] chain[i] != #[trigger] c[j] by {
                assert(c[j] != chain[i]);
            }
        } else if g == head {
            assert(m0.chains.contains_key(h));
        } else {
            assert(m0.chains.contains_key(h) && m0.chains.contains_key(g));
        }
    }
}

/// A completion keeps every descriptor free or in one chain.
proof fn lemma_completed_inv(m0: QueueModel, head: u16, m: QueueModel, free_head: u16)
    requires
        m0.inv(),
        m0.chains.contains_key(head),
        m0.completed(head, m),
        m.desc[m0.chains[head].last() as int].next == free_head,
        m0.free.len() > 0 ==> free_head == m0.free[0],
    ensures
        m.inv(),
{
    let chain = m0.chains[head];
    let n = chain.len() as int;
    let tail = chain.last();
    assert(chain[n - 1] < m0.size);
    assert(m.linked(m.free)) by {
        assert forall|i: int| 0 <= i < m.free.len() implies #[trigger] m.free[i] < m.size by {
            if i < n {
                assert(chain[i] < m0.size);
            } else {
                assert(m0.free[i - n] < m0.size);
            }
        }
        assert forall|i: int, j: int| 0 <= i < j < m.free.len() implies #[trigger] m.free[i]
            != #[trigger] m.free[j] by {
            if j < n {
                assert(chain[i] != chain[j]);
            } else if i < n {
                assert(chain[i] != m0.free[j - n]);
            } else {
                assert(m0.free[i - n] != m0.free[j - n]);
            }
        }
        assert forall|i: int| 0 <= i < m.free.len() - 1 implies m.desc[(#[trigger] m.free[i]) as int].next
            == m.free[i + 1] by {
            if i < n - 1 {
                assert(chain[i] != chain[n - 1]);
                assert(chain[i] < m0.size);
                assert(m.desc[chain[i] as int] == m0.desc[chain[i] as int]);
                assert(m0.desc[chain[i] as int].next == chain[i + 1]);
            } else if i > n - 1 {
                let x = m0.free[i - n];
                assert(chain[n - 1] != m0.free[i - n]);
                assert(x < m0.size);
                assert(m.desc[x as int] == m0.desc[x as int]);
                assert(m0.desc[m0.free[i - n] as int].next == m0.free[i - n + 1]);
            }
        }
    }
    assert forall|h: u16| #[trigger] m.chains.contains_key(h) implies m.linked(m.chains[h])
        && QueueModel::apart(m.chains[h], m.free) by {
        assert(m0.chains.contains_key(h));
        let c = m0.chains[h];
        assert(QueueModel::apart(c, chain));
        assert forall|i: int, j: int| 0 <= i < c.len() && 0 <= j < m.free.len() implies #[trigger] c[i]
            != #[trigger] m.free[j] by {
            if j < n {
                assert(c[i] != chain[j]);
            } else {
                assert(c[i] != m0.free[j - n]);
            }
        }
        assert forall|i: int| 0 <= i < c.len() - 1 implies m.desc[(#[trigger] c[i]) as int].next == c[i
            + 1] by {
            assert(c[i] != chain[n - 1]);
            assert(c[i] < m0.size);
            assert(m.desc[c[i] as int] == m0.desc[c[i] as int]);
        }
    }
    assert forall|h: u16, g: u16| #[trigger]
        m.chains.contains_key(h) && #[trigger] m.chains.contains_key(g) && h != g implies
        QueueModel::apart(m.chains[h], m.chains[g]) by {
        assert(m0.chains.contains_key(h) && m0.chains.contains_key(g));
    }
}

/// A submission that completes gives back exactly the descriptors that it
/// took: the free list and the chains in flight are as before.
pub proof fn law_completion_undoes_submit(
    a: QueueModel,
    bufs: Seq<QueueBuf>,
    b: QueueModel,
    c: QueueModel,
)
    requires
        a.inv(),
        0 < bufs.len() <= a.free.len(),
        a.submitted(bufs, b),
        b.completed(a.free[0], c),
    ensures
        c.free == a.free,
        c.chains == a.chains,
        b.free.len() == a.free.len() - bufs.len(),
{
    assert(c.free =~= a.free);
    assert(!a.chains.contains_key(a.free[0])) by {
        if a.chains.contains_key(a.free[0]) {
            assert(QueueModel::apart(a.chains[a.free[0]], a.free));
            assert(a.chains[a.free[0]][0] != a.free[0]);
        }
    }
    assert(c.chains =~= a.chains);
}

} // verus!
