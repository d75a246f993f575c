//! Virtio: transport-independent core.
//!
//! Split virtqueues, DMA memory, and the `Transport` interface that the device
//! drivers are written against. A transport is legacy virtio-pci over port I/O
//! or virtio-mmio; both use the same split-virtqueue memory layout: descriptor
//! table, avail ring, and a page-aligned used ring in one physically
//! contiguous allocation.

pub mod blk;
pub mod net;
pub mod pci;
pub mod queue;
pub mod queue_laws;

use vstd::prelude::*;
use crate::io::IoOp;
use crate::memory::frame_allocator::FrameAllocator;
use queue::Virtqueue;

verus! {

pub const STATUS_ACKNOWLEDGE: u8 = 1;

pub const STATUS_DRIVER: u8 = 2;

pub const STATUS_DRIVER_OK: u8 = 4;

pub const STATUS_FEATURES_OK: u8 = 8;

/// A virtio device transport: the register accesses of each operation. Where
/// an operation gives a value, it is what the last access reads.
pub trait Transport {
    /// The accesses do not leave the register space.
    spec fn wf(&self) -> bool;

    /// The configuration space has a register at `offset`.
    spec fn config_ok(&self, offset: int) -> bool;

    spec fn host_features_ops(&self) -> Seq<IoOp>;

    spec fn set_guest_features_ops(&self, features: u32) -> Seq<IoOp>;

    spec fn queue_max_ops(&self, queue: u16) -> Seq<IoOp>;

    spec fn queue_limit_of(&self, raw: u32) -> u16;

    spec fn setup_queue_ops(&self, queue: u16, size: u16, addrs: (u64, u64, u64)) -> Seq<IoOp>;

    spec fn notify_ops(&self, queue: u16) -> Seq<IoOp>;

    spec fn driver_ok_ops(&self) -> Seq<IoOp>;

    spec fn config_read8_ops(&self, offset: u16) -> Seq<IoOp>;

    spec fn config_read32_ops(&self, offset: u16) -> Seq<IoOp>;

    spec fn is_modern(&self) -> bool;

    spec fn text(&self) -> Seq<char>;

    /// Device feature bits 0 to 31.
    fn host_features(&self) -> (r: Vec<IoOp>)
        requires
            self.wf(),
        ensures
            r@ == self.host_features_ops(),
    ;

    /// Accepts feature bits 0 to 31.
    fn set_guest_features(&self, features: u32) -> (r: Vec<IoOp>)
        requires
            self.wf(),
        ensures
            r@ == self.set_guest_features_ops(features),
    ;

    /// The register that tells the maximum size of queue `queue`.
    fn queue_max(&self, queue: u16) -> (r: Vec<IoOp>)
        requires
            self.wf(),
        ensures
            r@ == self.queue_max_ops(queue),
    ;

    /// The maximum size of a queue by that register (0 = no such queue).
    fn queue_limit(&self, raw: u32) -> (r: u16)
        ensures
            r == self.queue_limit_of(raw),
    ;

    /// Hands `vq`'s ring memory to the device as queue `queue`.
    fn setup_queue(&self, queue: u16, vq: &Virtqueue) -> (r: Vec<IoOp>)
        requires
            self.wf(),
            vq.inv(),
        ensures
            r@ == self.setup_queue_ops(queue, vq@.size, vq@.ring_addrs()),
    ;

    /// Tells the device that a queue has new buffers.
    fn notify(&self, queue: u16) -> (r: Vec<IoOp>)
        requires
            self.wf(),
        ensures
            r@ == self.notify_ops(queue),
    ;

    /// Finishes initialization: the device is live after this.
    fn driver_ok(&self) -> (r: Vec<IoOp>)
        requires
            self.wf(),
        ensures
            r@ == self.driver_ok_ops(),
    ;

    /// Reads a byte of the device-specific configuration space.
    fn config_read8(&self, offset: u16) -> (r: Vec<IoOp>)
        requires
            self.wf(),
            self.config_ok(offset as int),
        ensures
            r@ == self.config_read8_ops(offset),
    ;

    /// Reads a word of the device-specific configuration space.
    fn config_read32(&self, offset: u16) -> (r: Vec<IoOp>)
        requires
            self.wf(),
            self.config_ok(offset as int),
        ensures
            r@ == self.config_read32_ops(offset),
    ;

    /// Reads the two words of a 64-bit field of the configuration space, low
    /// word first; `join64` joins them.
    fn config_read64(&self, offset: u16) -> (r: (Vec<IoOp>, Vec<IoOp>))
        requires
            self.wf(),
            offset + 4 <= u16::MAX,
            self.config_ok(offset as int),
            self.config_ok(offset + 4),
        ensures
            r.0@ == self.config_read32_ops(offset),
            r.1@ == self.config_read32_ops((offset + 4) as u16),
    {
        (self.config_read32(offset), self.config_read32(offset + 4))
    }

    /// Whether this is a modern (virtio 1.0) device.
    fn modern(&self) -> (r: bool)
        ensures
            r == self.is_modern(),
    ;

    /// Human-readable transport name.
    fn name(&self) -> (r: &'static str)
        ensures
            r@ == self.text(),
    ;
}

/// A 64-bit field from its two words.
pub fn join64(lo: u32, hi: u32) -> (r: u64)
    ensures
        r == lo + 0x1_0000_0000 * hi,
{
    lo as u64 + 0x1_0000_0000 * (hi as u64)
}

/// The driver for a device.
#[derive(Debug, Clone, Copy, PartialEq, Eq, Structural)]
pub enum Driver {
    Net,
    Blk,
    Unhandled,
}

/// The driver for a device that the architecture's bus probe found.
pub fn attach(device_id: u32) -> (r: Driver)
    ensures
        r == if device_id == 1 {
            Driver::Net
        } else if device_id == 2 {
            Driver::Blk
        } else {
            Driver::Unhandled
        },
{
    match device_id {
        1 => Driver::Net,
        2 => Driver::Blk,
        _ => Driver::Unhandled,
    }
}

/// A physically contiguous DMA region.
#[derive(Debug, Clone, Copy, PartialEq, Eq, Structural)]
pub struct DmaRegion {
    pub phys: u64,
    /// Address through which the kernel reaches it.
    pub virt: u64,
    pub size: u64,
}

/// Allocates `pages` physically contiguous pages for device DMA, reached by
/// the kernel at `offset` above their physical address; `None` where there is
/// no such run. The caller zeroes them.
pub fn dma_alloc(fa: &mut FrameAllocator, pages: usize, offset: u64) -> (r: Option<DmaRegion>)
    requires
        old(fa).inv(),
        offset <= u64::MAX - 0x8_0000_0000,
    ensures
        final(fa).inv(),
        match r {
            Some(d) => {
                let first = d.phys as int / 4096;
                &&& d.phys == first * 4096
                &&& d.virt == d.phys + offset
                &&& d.size == pages * 4096
                &&& pages > 0
                &&& old(fa)@.is_free_run(first, pages as int)
                &&& final(fa)@ == old(fa)@.with_used(first, pages as int)
            },
            None => {
                &&& pages == 0 || forall|s: int|
                    0 <= s ==> !#[trigger] old(fa)@.is_free_run(s, pages as int)
                &&& final(fa)@ == old(fa)@
            },
        },
{
    let ghost before = fa@;
    match fa.allocate_contiguous(pages) {
        Some(phys) => {
            proof {
                before.lemma_run_bounds(*old(fa), phys as int / 4096, pages as int);
            }
            Some(DmaRegion { phys, virt: phys + offset, size: pages as u64 * 4096 })
        },
        None => None,
    }
}

} // verus!
