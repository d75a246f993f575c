//! virtio-net: network driver with an ARP proof of life.
//!
//! Queue 0 receives, queue 1 sends. With no features beyond the MAC address
//! every packet is prefixed by the 10-byte legacy header, and receive buffers
//! are large enough for a full frame.

use vstd::prelude::*;
use crate::bytes::zeros;
use crate::io::{join_ops, IoOp};
use crate::serial::{hex_digits, write_hex_byte};
use super::queue::{fresh, used_chain, QueueBuf, QueueModel, Virtqueue};
use super::{DmaRegion, Transport};

verus! {

/// The device has a MAC address in its configuration space.
pub const FEATURE_MAC: u32 = 0x20;

/// Size of the legacy header.
pub const NET_HDR_LEN: usize = 10;

pub const RX_BUFFERS: usize = 8;

pub const RX_BUF_LEN: usize = 2048;

/// Pages of the receive area.
pub const RX_PAGES: usize = 4;

/// A virtio-net device.
pub struct NetDevice<T: Transport> {
    pub transport: T,
    pub rx: Virtqueue,
    pub tx: Virtqueue,
    /// The receive buffers (the device writes).
    pub rx_buf: DmaRegion,
    /// One page: header and frame to send.
    pub tx_buf: DmaRegion,
    pub mac: [u8; 6],
    /// Set after a timeout or a mismatched completion of a send: the device
    /// still owns the descriptor and the buffer, so neither can be trusted
    /// before a reset. Until then everything fails. (That nothing was received
    /// in time is no failure.)
    pub failed: bool,
}

impl<T: Transport> NetDevice<T> {
    pub open spec fn inv(&self) -> bool {
        &&& self.transport.wf()
        &&& self.rx.inv()
        &&& self.tx.inv()
        &&& self.rx_buf.phys <= 0x10_0000_0000_0000
        &&& self.rx_buf.virt <= 0xFFFF_FFFF_FFFF_0000
    }
}

/// Whether a device is available, and not failed.
pub fn available<T: Transport>(dev: &Option<NetDevice<T>>) -> (r: bool)
    ensures
        r == (*dev is Some && !dev->0.failed),
{
    match dev {
        Some(d) => !d.failed,
        None => false,
    }
}

/// The MAC address, zero if there is no device.
pub fn mac<T: Transport>(dev: &Option<NetDevice<T>>) -> (r: [u8; 6])
    ensures
        *dev is Some ==> r@ == dev->0.mac@,
        *dev is None ==> r@ =~= zeros(6),
{
    match dev {
        Some(d) => d.mac,
        None => [0; 6],
    }
}

/// A MAC address as six pairs of hexadecimal digits with colons, the first
/// `n` of them.
pub open spec fn mac_text(mac: Seq<u8>, n: int) -> Seq<u8>
    decreases n,
{
    if n <= 0 {
        Seq::empty()
    } else if n == 1 {
        hex_digits(mac[0] as int, 2)
    } else {
        mac_text(mac, n - 1).push(0x3A) + hex_digits(mac[n - 1] as int, 2)
    }
}

/// Writes a MAC address to the console.
pub fn write_mac(out: &mut Vec<u8>, mac: &[u8; 6])
    ensures
        final(out)@ == old(out)@ + mac_text(mac@, 6),
{
    let mut i: usize = 0;
    while i < 6
        invariant
            i <= 6,
            out@ =~= old(out)@ + mac_text(mac@, i as int),
        decreases 6 - i,
    {
        if i > 0 {
            out.push(0x3A);
        }
        write_hex_byte(out, mac[i]);
        i += 1;
    }
}

/// Begins to initialize a device: its features, which are read.
pub fn init<T: Transport>(t: &T) -> (r: Vec<IoOp>)
    requires
        t.wf(),
    ensures
        r@ == t.host_features_ops(),
{
    t.host_features()
}

/// Accepts of the device's features at most the MAC address, and asks for the
/// size of the receive queue, which is read last.
pub fn init_features<T: Transport>(t: &T, host: u32) -> (r: Vec<IoOp>)
    requires
        t.wf(),
    ensures
        r@ == t.set_guest_features_ops(host & FEATURE_MAC) + t.queue_max_ops(0),
{
    join_ops(t.set_guest_features(host & FEATURE_MAC), t.queue_max(0))
}

/// Receive buffer `i`.
pub open spec fn rx_bufs(phys: u64, i: int) -> Seq<QueueBuf> {
    seq![((phys + i * RX_BUF_LEN) as u64, RX_BUF_LEN as u32, true)]
}

/// `b` is the receive queue `a` with buffer `i` posted, if there was a
/// descriptor for it.
pub open spec fn posted(a: QueueModel, b: QueueModel, phys: u64, i: int) -> bool {
    if a.free.len() > 0 {
        a.submitted(rx_bufs(phys, i), b)
    } else {
        b == a
    }
}

/// `steps` leads from the receive queue `q` to `post` by posting the first `n`
/// buffers.
pub open spec fn fills(q: QueueModel, post: QueueModel, phys: u64, n: int, steps: Seq<QueueModel>) -> bool {
    &&& steps.len() == n + 1
    &&& steps[0] == q
    &&& steps[n] == post
    &&& forall|i: int| 0 <= i < n ==> posted(#[trigger] steps[i], steps[i + 1], phys, i)
}

/// `post` is the receive queue `q` with its first `n` buffers posted.
pub open spec fn prefilled(q: QueueModel, post: QueueModel, phys: u64, n: int) -> bool {
    exists|steps: Seq<QueueModel>| #[trigger] fills(q, post, phys, n, steps)
}

/// The queues of a device, by the registers that tell their sizes: `None`
/// where one is missing. The receive queue is filled with buffers for the
/// device to write to, as far as it has descriptors. Also the accesses that
/// set the queues up.
pub fn init_queues<T: Transport>(
    t: &T,
    raw_rx: u32,
    raw_tx: u32,
    rx_ring: u64,
    tx_ring: u64,
    rx_phys: u64,
) -> (r: Option<(Virtqueue, Virtqueue, Vec<IoOp>)>)
    requires
        t.wf(),
        rx_ring <= 0x10_0000_0000_0000,
        tx_ring <= 0x10_0000_0000_0000,
        rx_phys <= 0x10_0000_0000_0000,
    ensures
        match r {
            None => t.queue_limit_of(raw_rx) == 0 || t.queue_limit_of(raw_tx) == 0,
            Some((rx, tx, ops)) => {
                &&& rx.inv()
                &&& tx.inv()
                &&& rx@.size > 0
                &&& tx@.size > 0
                &&& tx@ == fresh(t.queue_limit_of(raw_tx), tx_ring)
                &&& prefilled(
                    fresh(t.queue_limit_of(raw_rx), rx_ring),
                    rx@,
                    rx_phys,
                    RX_BUFFERS as int,
                )
                &&& rx@.size == t.queue_limit_of(raw_rx)
                &&& rx@.ring_phys == rx_ring
                &&& ops@ == t.setup_queue_ops(0, rx@.size, rx@.ring_addrs()) + t.setup_queue_ops(
                    1,
                    tx@.size,
                    tx@.ring_addrs(),
                )
            },
        },
{
    let rx_size: u16 = t.queue_limit(raw_rx);
    let tx_size: u16 = t.queue_limit(raw_tx);
    if rx_size == 0 || tx_size == 0 {
        return None;
    }
    let mut rx = Virtqueue::new(rx_size, rx_ring);
    let tx = Virtqueue::new(tx_size, tx_ring);
    let ops = join_ops(t.setup_queue(0, &rx), t.setup_queue(1, &tx));
    let ghost q = rx@;
    let mut i: usize = 0;
    assert(fills(q, rx@, rx_phys, 0, seq![q]));
    while i < RX_BUFFERS
        invariant
            i <= RX_BUFFERS,
            rx.inv(),
            rx_phys <= 0x10_0000_0000_0000,
            rx@.size == q.size,
            rx@.ring_phys == q.ring_phys,
            prefilled(q, rx@, rx_phys, i as int),
        decreases RX_BUFFERS - i,
    {
        let ghost mid = rx@;
        let buf: [QueueBuf; 1] = [(rx_phys + (i * RX_BUF_LEN) as u64, 2048, true)];
        assert(buf@ =~= rx_bufs(rx_phys, i as int));
        let _ = rx.submit(buf.as_slice());
        proof {
            let steps = choose|steps: Seq<QueueModel>| #[trigger]
                fills(q, mid, rx_phys, i as int, steps);
            let more = steps.push(rx@);
            assert forall|k: int| 0 <= k < i + 1 implies posted(
                #[trigger] more[k],
                more[k + 1],
                rx_phys,
                k,
            ) by {
                if k < i {
                    assert(posted(steps[k], steps[k + 1], rx_phys, k));
                }
            }
            assert(fills(q, rx@, rx_phys, i as int + 1, more));
        }
        i += 1;
    }
    Some((rx, tx, ops))
}

/// Makes the device live and tells it of the receive buffers.
pub fn init_live<T: Transport>(t: &T) -> (r: Vec<IoOp>)
    requires
        t.wf(),
    ensures
        r@ == t.driver_ok_ops() + t.notify_ops(0),
{
    join_ops(t.driver_ok(), t.notify(0))
}

/// A frame that was handed to the device.
pub struct PendingFrame {
    /// Head of its chain.
    pub head: u16,
    /// What the send page is to hold before the device is notified.
    pub packet: Vec<u8>,
    /// The accesses that notify the device.
    pub notify: Vec<IoOp>,
}

/// A frame with the legacy header, all zero: no checksum offload.
pub open spec fn packet_of(frame: Seq<u8>) -> Seq<u8> {
    zeros(NET_HDR_LEN as int) + frame
}

/// The chain of a send of `len` bytes.
pub open spec fn send_chain(buf: DmaRegion, len: u32) -> Seq<QueueBuf> {
    seq![(buf.phys, len, false)]
}

/// What a received buffer means: its index in the receive area, and the
/// length of the frame without the header, at most `room`.
pub open spec fn received_len(written: u32, room: int) -> int {
    let n = if written < NET_HDR_LEN { 0 } else { written - NET_HDR_LEN };
    if n < room {
        n
    } else {
        room
    }
}

impl<T: Transport> NetDevice<T> {
    /// Hands an ethernet frame to the device; `None` where it has failed or
    /// has no descriptor.
    pub fn send_frame(&mut self, frame: &[u8]) -> (r: Option<PendingFrame>)
        requires
            old(self).inv(),
            !old(self).failed ==> NET_HDR_LEN + frame@.len() <= old(self).tx_buf.size,
            old(self).tx_buf.size <= u32::MAX,
        ensures
            final(self).inv(),
            final(self).transport == old(self).transport,
            final(self).rx@ == old(self).rx@,
            final(self).rx_buf == old(self).rx_buf,
            final(self).tx_buf == old(self).tx_buf,
            final(self).mac == old(self).mac,
            final(self).failed == old(self).failed,
            match r {
                None => (old(self).failed || old(self).tx@.free.len() == 0) && final(self).tx@
                    == old(self).tx@,
                Some(p) => {
                    &&& !old(self).failed
                    &&& old(self).tx@.free.len() > 0
                    &&& p.head == old(self).tx@.free[0]
                    &&& p.packet@ == packet_of(frame@)
                    &&& p.notify@ == old(self).transport.notify_ops(1)
                    &&& old(self).tx@.submitted(
                        send_chain(old(self).tx_buf, (NET_HDR_LEN + frame@.len()) as u32),
                        final(self).tx@,
                    )
                },
            },
    {
        if self.failed {
            return None;
        }
        let mut packet: Vec<u8> = crate::bytes::zeroed(NET_HDR_LEN);
        packet.extend_from_slice(frame);
        assert(packet@ =~= packet_of(frame@));
        let len: u32 = 10 + frame.len() as u32;
        let chain: [QueueBuf; 1] = [(self.tx_buf.phys, len, false)];
        assert(chain@ =~= send_chain(self.tx_buf, len));
        match self.tx.submit(chain.as_slice()) {
            None => None,
            Some(head) => Some(PendingFrame { head, packet, notify: self.transport.notify(1) }),
        }
    }

    /// Takes what came of the send at `head`: its completion, or `None` for a
    /// timeout. `true` if the frame was sent. A timeout, or a completion of
    /// another chain, fails the device for good.
    pub fn finish_send(&mut self, head: u16, used: Option<(u32, u32)>) -> (r: bool)
        requires
            old(self).inv(),
            old(self).tx@.chains.contains_key(head),
            old(self).tx@.chains[head].len() == 1,
        ensures
            final(self).inv(),
            final(self).transport == old(self).transport,
            final(self).rx@ == old(self).rx@,
            final(self).rx_buf == old(self).rx_buf,
            final(self).tx_buf == old(self).tx_buf,
            final(self).mac == old(self).mac,
            r == super::blk::completes(used, head),
            final(self).failed == (old(self).failed || !r),
            super::blk::taken(old(self).tx@, used, 1, final(self).tx@),
    {
        match used {
            None => {
                self.failed = true;
                false
            },
            Some((id, len)) => {
                let chain: u16 = used_chain(id);
                if self.tx.in_flight(chain) == Some(1) {
                    self.tx.reap(chain, 1, len);
                }
                if chain != head {
                    self.failed = true;
                    return false;
                }
                true
            },
        }
    }

    /// Takes a receive completion: the chain at `head`, with `written` bytes.
    /// Gives the address of the frame in the receive area and its length, at
    /// most `room`; the buffer goes back to the queue once it was copied.
    pub fn recv_frame(&self, head: u16, written: u32, room: usize) -> (r: Option<(u64, usize)>)
        requires
            self.inv(),
        ensures
            r == if self.failed {
                None
            } else {
                Some(
                    (
                        (self.rx_buf.virt + (head as int % 8) * RX_BUF_LEN + NET_HDR_LEN) as u64,
                        received_len(written, room as int) as usize,
                    ),
                )
            },
    {
        if self.failed {
            return None;
        }
        let off: u64 = (head as u64 % 8) * 2048;
        let n: u32 = if written < 10 { 0 } else { written - 10 };
        let len: usize = if (n as u64) < room as u64 { n as usize } else { room };
        Some((self.rx_buf.virt + off + 10, len))
    }

    /// Recycles the receive buffer of the chain at `head`: reaps the
    /// completion and posts the buffer again. Gives the accesses that notify
    /// the device.
    pub fn recycle(&mut self, head: u16) -> (r: Vec<IoOp>)
        requires
            old(self).inv(),
            old(self).rx@.chains.contains_key(head),
            old(self).rx@.chains[head].len() == 1,
        ensures
            final(self).inv(),
            final(self).transport == old(self).transport,
            final(self).tx@ == old(self).tx@,
            final(self).rx_buf == old(self).rx_buf,
            final(self).tx_buf == old(self).tx_buf,
            final(self).mac == old(self).mac,
            final(self).failed == old(self).failed,
            r@ == old(self).transport.notify_ops(0),
            exists|mid: QueueModel| #[trigger]
                old(self).rx@.completed(head, mid) && mid.submitted(
                    rx_bufs(old(self).rx_buf.phys, head as int % 8),
                    final(self).rx@,
                ),
    {
        self.rx.reap(head, 1, 0);
        let ghost mid = self.rx@;
        let off: u64 = (head as u64 % 8) * 2048;
        let buf: [QueueBuf; 1] = [(self.rx_buf.phys + off, 2048, true)];
        assert(buf@ =~= rx_bufs(self.rx_buf.phys, head as int % 8));
        let _ = self.rx.submit(buf.as_slice());
        assert(old(self).rx@.completed(head, mid));
        self.transport.notify(0)
    }
}

/// The ARP request for the gateway 10.0.2.2 from 10.0.2.15: broadcast, for
/// IPv4 over ethernet.
pub open spec fn arp_request(mac: Seq<u8>) -> Seq<u8> {
    Seq::new(6, |i: int| 0xFFu8) + mac + seq![0x08u8, 0x06] + seq![
        0x00u8,
        0x01,
        0x08,
        0x00,
        6,
        4,
        0x00,
        0x01,
    ] + mac + seq![10u8, 0, 2, 15] + zeros(6) + seq![10u8, 0, 2, 2]
}

fn push_bytes(out: &mut Vec<u8>, a: u8, b: u8, c: u8, d: u8)
    ensures
        final(out)@ == old(out)@ + seq![a, b, c, d],
{
    out.push(a);
    out.push(b);
    out.push(c);
    out.push(d);
}

/// Builds the ARP request for the gateway.
pub fn arp_frame(mac: &[u8; 6]) -> (r: Vec<u8>)
    ensures
        r@ == arp_request(mac@),
        r@.len() == 42,
{
    let mut f: Vec<u8> = Vec::new();
    push_bytes(&mut f, 0xFF, 0xFF, 0xFF, 0xFF);
    f.push(0xFF);
    f.push(0xFF);
    f.extend_from_slice(mac.as_slice());
    f.push(0x08);
    f.push(0x06);
    push_bytes(&mut f, 0x00, 0x01, 0x08, 0x00);
    push_bytes(&mut f, 6, 4, 0x00, 0x01);
    f.extend_from_slice(mac.as_slice());
    push_bytes(&mut f, 10, 0, 2, 15);
    push_bytes(&mut f, 0, 0, 0, 0);
    f.push(0);
    f.push(0);
    push_bytes(&mut f, 10, 0, 2, 2);
    assert(f@ =~= arp_request(mac@));
    f
}

/// The frame is an ARP reply from the gateway.
pub open spec fn is_arp_reply(rx: Seq<u8>) -> bool {
    &&& rx.len() >= 42
    &&& rx[12] == 0x08 && rx[13] == 0x06
    &&& rx[20] == 0x00 && rx[21] == 0x02
    &&& rx[28] == 10 && rx[29] == 0 && rx[30] == 2 && rx[31] == 2
}

/// The gateway's MAC address, if the received frame is its ARP reply.
pub fn arp_demo(rx: &[u8]) -> (r: Option<[u8; 6]>)
    ensures
        match r {
            Some(mac) => is_arp_reply(rx@) && mac@ =~= rx@.subrange(22, 28),
            None => !is_arp_reply(rx@),
        },
{
    if rx.len() >= 42 && rx[12] == 0x08 && rx[13] == 0x06 && rx[20] == 0x00 && rx[21] == 0x02 && rx[28]
        == 10 && rx[29] == 0 && rx[30] == 2 && rx[31] == 2 {
        Some([rx[22], rx[23], rx[24], rx[25], rx[26], rx[27]])
    } else {
        None
    }
}

/// How many received frames are held against the reply that is waited for.
pub const ARP_TRIES: u32 = 10;

/// How long each of them is waited for, in milliseconds.
pub const ARP_WAIT_MS: u32 = 500;

/// How much of a frame is looked at.
pub const ARP_ROOM: usize = 128;

/// How the wait for the ARP reply goes on.
#[derive(Debug, Clone, Copy, PartialEq, Eq)]
pub enum ArpStep {
    /// The gateway replied: this is its MAC address.
    Reply([u8; 6]),
    /// It is over without a reply.
    NoReply,
    /// Wait for the next frame, with that many seen.
    Again { tries: u32 },
}

/// One round of the wait for the ARP reply, after `tries` frames that were
/// none: `rx` is the frame that came, `None` where none did in time. A reply
/// ends it; so does a timeout, and the last frame of `ARP_TRIES`.
pub fn arp_step(tries: u32, rx: Option<&[u8]>) -> (r: ArpStep)
    requires
        tries < ARP_TRIES,
    ensures
        match r {
            ArpStep::Reply(mac) => rx is Some && is_arp_reply(rx->0@) && mac@ =~= rx->0@.subrange(22, 28),
            ArpStep::NoReply => rx is None || !is_arp_reply(rx->0@) && tries + 1 == ARP_TRIES,
            ArpStep::Again { tries: seen } => rx is Some && !is_arp_reply(rx->0@) && seen == tries + 1
                && seen < ARP_TRIES,
        },
{
    match rx {
        None => ArpStep::NoReply,
        Some(frame) => match arp_demo(frame) {
            Some(mac) => ArpStep::Reply(mac),
            None => if tries + 1 < ARP_TRIES {
                ArpStep::Again { tries: tries + 1 }
            } else {
                ArpStep::NoReply
            },
        },
    }
}

/// A packet is a header of ten zeros, then the frame.
pub proof fn law_packet_is_header_and_frame(frame: Seq<u8>, i: int)
    requires
        0 <= i < frame.len(),
    ensures
        packet_of(frame).len() == 10 + frame.len(),
        packet_of(frame)[10 + i] == frame[i],
        forall|k: int| 0 <= k < 10 ==> packet_of(frame)[k] == 0,
{
}

/// The frame of a packet that was received is what follows the header, as far
/// as there is room.
pub proof fn law_received_frame_has_no_header(written: u32, room: int)
    requires
        0 <= room,
    ensures
        0 <= received_len(written, room) <= room,
        written < 10 ==> received_len(written, room) == 0,
        10 <= written && written - 10 <= room ==> received_len(written, room) == written - 10,
        10 <= written && written - 10 > room ==> received_len(written, room) == room,
{
}

/// The receive buffers: one for each of eight, of 2048 bytes, one behind the
/// other and for the device to write.
pub proof fn law_receive_buffers(phys: u64, i: int)
    requires
        0 <= i < 8,
        phys <= 0x10_0000_0000_0000,
    ensures
        rx_bufs(phys, i).len() == 1,
        rx_bufs(phys, i)[0].0 == phys + 2048 * i,
        rx_bufs(phys, i)[0].1 == 2048,
        rx_bufs(phys, i)[0].2,
        RX_BUFFERS == 8,
{
}

/// A frame is sent from one buffer that the device reads.
pub proof fn law_send_buffer(buf: DmaRegion, len: u32)
    ensures
        send_chain(buf, len).len() == 1,
        send_chain(buf, len)[0].0 == buf.phys,
        send_chain(buf, len)[0].1 == len,
        !send_chain(buf, len)[0].2,
{
}

/// The ARP request: to all, from our address, of type 0x0806; it asks who has
/// 10.0.2.2 and tells 10.0.2.15.
pub proof fn law_arp_request(mac: Seq<u8>, i: int)
    requires
        mac.len() == 6,
        0 <= i < 6,
    ensures
        ({
            let f = arp_request(mac);
            &&& f.len() == 42
            &&& f[i] == 0xFF
            &&& f[6 + i] == mac[i]
            &&& f[12] == 8 && f[13] == 6
            &&& f[14] == 0 && f[15] == 1
            &&& f[16] == 8 && f[17] == 0
            &&& f[18] == 6 && f[19] == 4
            &&& f[20] == 0 && f[21] == 1
            &&& f[22 + i] == mac[i]
            &&& f[28] == 10 && f[29] == 0 && f[30] == 2 && f[31] == 15
            &&& f[32 + i] == 0
            &&& f[38] == 10 && f[39] == 0 && f[40] == 2 && f[41] == 2
        }),
{
}

/// An ARP reply of the gateway: a frame of type 0x0806 that is a reply, from
/// 10.0.2.2. Our own request is none.
pub proof fn law_arp_reply(rx: Seq<u8>, mac: Seq<u8>)
    requires
        mac.len() == 6,
    ensures
        is_arp_reply(rx) <==> rx.len() >= 42 && rx[12] == 8 && rx[13] == 6 && rx[20] == 0 && rx[21] == 2
            && rx[28] == 10 && rx[29] == 0 && rx[30] == 2 && rx[31] == 2,
        !is_arp_reply(arp_request(mac)),
{
    law_arp_request(mac, 0);
}

proof fn lemma_pair_of_digits(b: int)
    ensures
        hex_digits(b, 2).len() == 2,
{
    reveal_with_fuel(hex_digits, 3);
}

/// A MAC address is printed as six pairs of digits with colons between them.
pub proof fn law_mac_text(mac: Seq<u8>, n: int, i: int)
    requires
        0 <= i < n <= mac.len(),
    ensures
        mac_text(mac, n).len() == 3 * n - 1,
        mac_text(mac, n).subrange(3 * i, 3 * i + 2) == hex_digits(mac[i] as int, 2),
        i + 1 < n ==> mac_text(mac, n)[3 * i + 2] == 0x3A,
    decreases n,
{
    let last = hex_digits(mac[n - 1] as int, 2);
    lemma_pair_of_digits(mac[n - 1] as int);
    if n == 1 {
        assert(mac_text(mac, 1).subrange(0, 2) =~= last);
    } else {
        law_mac_text(mac, n - 1, if i < n - 1 {
            i
        } else {
            0
        });
        let before = mac_text(mac, n - 1);
        let all = mac_text(mac, n);
        if i < n - 1 {
            assert(all.subrange(3 * i, 3 * i + 2) =~= before.subrange(3 * i, 3 * i + 2));
        } else {
            assert(all.subrange(3 * i, 3 * i + 2) =~= last);
        }
    }
}

spec fn step_posts(steps: Seq<QueueModel>, phys: u64, i: int) -> bool {
    posted(steps[i], steps[i + 1], phys, i)
}

proof fn lemma_one_posted(a: QueueModel, b: QueueModel, phys: u64, i: int)
    requires
        posted(a, b, phys, i),
    ensures
        a.free.len() > 0 ==> b.free.len() == a.free.len() - 1 && b.avail_idx == (a.avail_idx + 1)
            % 0x1_0000,
        a.free.len() == 0 ==> b.free.len() == 0,
{
}

proof fn lemma_posted_so_far(q: QueueModel, phys: u64, n: int, steps: Seq<QueueModel>, k: int)
    requires
        steps[0] == q,
        forall|i: int| 0 <= i < n ==> #[trigger] step_posts(steps, phys, i),
        0 <= k <= n,
    ensures
        q.free.len() >= k ==> steps[k].free.len() == q.free.len() - k && steps[k].avail_idx == (
        q.avail_idx + k) % 0x1_0000,
        q.free.len() < k ==> steps[k].free.len() == 0,
    decreases k,
{
    if k > 0 {
        lemma_posted_so_far(q, phys, n, steps, k - 1);
        assert(step_posts(steps, phys, k - 1));
        lemma_one_posted(steps[k - 1], steps[k], phys, k - 1);
    }
}

/// Every buffer is given to the device that there is a descriptor for: each takes one, and the queue
/// has then that many more on offer.
pub proof fn law_prefilled_queue(q: QueueModel, post: QueueModel, phys: u64, n: int)
    requires
        0 <= n,
        prefilled(q, post, phys, n),
    ensures
        q.free.len() >= n ==> post.free.len() == q.free.len() - n,
        q.free.len() < n ==> post.free.len() == 0,
        q.free.len() >= n ==> post.avail_idx == (q.avail_idx + n) % 0x1_0000,
{
    let steps = choose|steps: Seq<QueueModel>| #[trigger] fills(q, post, phys, n, steps);
    assert forall|i: int| 0 <= i < n implies #[trigger] step_posts(steps, phys, i) by {
        assert(posted(steps[i], steps[i + 1], phys, i));
    }
    lemma_posted_so_far(q, phys, n, steps, n);
}

} // verus!
