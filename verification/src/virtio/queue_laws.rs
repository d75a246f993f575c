//! What the device finds in the memory of a virtqueue.

use vstd::prelude::*;
use crate::io::IoOp;
use super::blk::{completes, taken};
use super::queue::{chain_of, fresh, pages_for, used_at, QueueBuf, QueueModel};

verus! {

/// The layout of ring memory: the descriptor table of 16 bytes for each
/// descriptor, behind it the available ring, and on the first page boundary
/// behind that the used ring; as many pages as hold it all, and no more.
pub proof fn law_ring_layout(q: QueueModel)
    requires
        q.ring_phys <= 0x10_0000_0000_0000,
    ensures
        ({
            let n = q.size as int;
            let (table, avail, used) = q.ring_addrs();
            let at = used - table;
            &&& table == q.ring_phys
            &&& avail == table + 16 * n
            &&& at % 4096 == 0
            &&& 16 * n + 6 + 2 * n <= at < 16 * n + 6 + 2 * n + 4096
            &&& used_at(n) == at
            &&& 4096 * (pages_for(n) - 1) < at + 6 + 8 * n <= 4096 * pages_for(n)
        }),
{
}

/// A new queue: every descriptor is free, in order and linked to the next,
/// nothing is in flight, and both rings are at their start.
pub proof fn law_new_queue(size: u16, ring_phys: u64, i: int)
    requires
        0 <= i < size,
    ensures
        ({
            let q = fresh(size, ring_phys);
            &&& q.size == size
            &&& q.ring_phys == ring_phys
            &&& q.free.len() == size
            &&& q.free[i] == i
            &&& q.desc.len() == size
            &&& q.desc[i].next == i + 1
            &&& q.desc[i].flags == 0
            &&& q.avail_ring.len() == size
            &&& q.avail_ring[i] == 0
            &&& q.avail_idx == 0
            &&& q.last_used == 0
            &&& forall|h: u16| !#[trigger] q.chains.contains_key(h)
        }),
{
}

/// What the device finds after a submission: the next slot of the available
/// ring names the head of a chain, and its index has moved on by one; along
/// the chain lie the buffers in their order, with bit 0 of the flags where
/// another follows and bit 1 where the device is to write. All other
/// descriptors and slots stay.
pub proof fn law_device_finds_the_buffers(q: QueueModel, bufs: Seq<QueueBuf>, post: QueueModel, i: int, k: int)
    requires
        q.inv(),
        0 < bufs.len() <= q.free.len(),
        q.submitted(bufs, post),
        0 <= i < bufs.len(),
        0 <= k < q.size,
    ensures
        ({
            let head = q.free[0];
            let chain = post.chains[head];
            let slot = q.avail_idx as int % q.size as int;
            let d = post.desc[chain[i] as int];
            &&& post.avail_idx == (q.avail_idx + 1) % 0x1_0000
            &&& post.avail_ring[slot] == head
            &&& k != slot ==> post.avail_ring[k] == q.avail_ring[k]
            &&& post.chains.contains_key(head)
            &&& chain.len() == bufs.len()
            &&& chain[0] == head
            &&& chain[i] == q.free[i]
            &&& d.addr == bufs[i].0
            &&& d.len == bufs[i].1
            &&& d.flags == (if i + 1 < bufs.len() {
                1int
            } else {
                0
            }) + (if bufs[i].2 {
                2int
            } else {
                0
            })
            &&& i + 1 < bufs.len() ==> d.next == chain[i + 1]
            &&& !chain.contains(k as u16) ==> post.desc[k] == q.desc[k]
            &&& post.free == q.free.skip(bufs.len() as int)
            &&& post.last_used == q.last_used
            &&& post.size == q.size && post.ring_phys == q.ring_phys
        }),
{
    assert(q.linked(q.free));
    assert(2u16 | 1u16 == 3u16) by (bit_vector);
    assert(0u16 | 1u16 == 1u16) by (bit_vector);
    let chain = q.chain_for(bufs);
    assert(post.desc[chain[i] as int] == q.desc_for(bufs, i));
    vstd::arithmetic::div_mod::lemma_mod_bound(q.avail_idx as int, q.size as int);
}

/// A completion that is taken gives back its chain, in front of the free
/// descriptors, and moves on by one in the used ring; other chains stay.
pub proof fn law_completion_frees_the_chain(q: QueueModel, head: u16, post: QueueModel, other: u16)
    requires
        q.chains.contains_key(head),
        q.completed(head, post),
    ensures
        post.last_used == (q.last_used + 1) % 0x1_0000,
        post.free == q.chains[head] + q.free,
        !post.chains.contains_key(head),
        other != head ==> post.chains.contains_key(other) == q.chains.contains_key(other),
        other != head && q.chains.contains_key(other) ==> post.chains[other] == q.chains[other],
        post.avail_idx == q.avail_idx,
        post.avail_ring == q.avail_ring,
{
}

/// The used ring names a chain by the low 16 bits of an entry.
pub proof fn law_used_entries_name_chains(id: u32)
    ensures
        chain_of(id) == id % 65536,
        id <= 0xFFFF ==> chain_of(id) == id,
{
}

/// A request is completed by an entry that names its head, and by no other;
/// without an entry nothing is taken.
pub proof fn law_completion_is_by_head(q: QueueModel, id: u32, len: u32, head: u16, n: int, post: QueueModel)
    ensures
        completes(Some((id, len)), head) <==> id % 65536 == head,
        !completes(None, head),
        taken(q, None, n, post) <==> post == q,
        q.chains.contains_key((id % 65536) as u16) && q.chains[(id % 65536) as u16].len() == n
            ==> (taken(q, Some((id, len)), n, post) <==> q.completed((id % 65536) as u16, post)),
{
}

/// Where the fields lie in memory: descriptor `k` at byte `16 * k` of the
/// table, with its address, at 8 its length, at 12 its flags and at 14 the
/// next; slot `k` of the available ring at byte `4 + 2 * k` of it, and its
/// index at byte 2. The index is written last but for the ring's flags, and
/// behind a barrier, so that the device never sees it before the rest.
pub proof fn law_ring_memory(q: QueueModel, offset: int, k: int)
    requires
        0 <= offset,
        offset + q.ring_phys + 0x20_0000 <= u64::MAX,
        0 <= k < q.size,
    ensures
        ({
            let ops = q.memory_ops(offset);
            let n = q.size as int;
            let table = offset + q.ring_phys;
            let d = q.desc[k];
            &&& ops.len() == 5 * n + 3
            &&& ops[4 * k] == (IoOp::Write64 { addr: (table + 16 * k) as u64, value: d.addr })
            &&& ops[4 * k + 1] == (IoOp::Write32 { addr: (table + 16 * k + 8) as u64, value: d.len })
            &&& ops[4 * k + 2] == (IoOp::Write16 { addr: (table + 16 * k + 12) as u64, value: d.flags })
            &&& ops[4 * k + 3] == (IoOp::Write16 { addr: (table + 16 * k + 14) as u64, value: d.next })
            &&& ops[4 * n + k] == (IoOp::Write16 {
                addr: (table + 16 * n + 4 + 2 * k) as u64,
                value: q.avail_ring[k],
            })
            &&& ops[5 * n] is Barrier
            &&& ops[5 * n + 1] == (IoOp::Write16 { addr: (table + 16 * n + 2) as u64, value: q.avail_idx })
            &&& ops[5 * n + 2] == (IoOp::Write16 { addr: (table + 16 * n) as u64, value: 0 })
        }),
{
    assert((4 * k) / 4 == k && (4 * k) % 4 == 0);
    assert((4 * k + 1) / 4 == k && (4 * k + 1) % 4 == 1);
    assert((4 * k + 2) / 4 == k && (4 * k + 2) % 4 == 2);
    assert((4 * k + 3) / 4 == k && (4 * k + 3) % 4 == 3);
}

} // verus!
