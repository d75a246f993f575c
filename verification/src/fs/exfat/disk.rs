//! The disk as the file system sees it, and the geometry of a volume.

use vstd::prelude::*;
use crate::bytes::{le32, read_le32};

verus! {

/// Bytes of a sector.
pub const SECTOR: usize = 512;

/// FAT end-of-chain marker.
pub const FAT_EOF: u32 = 0xFFFF_FFFF;

/// A disk access.
#[derive(Debug, PartialEq, Eq)]
pub enum DiskOp {
    /// Read `count` sectors from `lba` on.
    Read { lba: u64, count: u32 },
    /// Write one sector.
    Write { lba: u64, data: Vec<u8> },
}

/// What came of a disk access.
#[derive(Debug, PartialEq, Eq)]
pub enum DiskReply {
    /// The sectors that were read.
    Data(Vec<u8>),
    /// The sector was written.
    Written,
    /// The access failed.
    Failed,
}

/// The sectors of a disk that can be accessed, by address.
pub type Disk = Map<int, Seq<u8>>;

/// Every sector has its size.
pub open spec fn disk_wf(d: Disk) -> bool {
    forall|lba: int| #[trigger] d.contains_key(lba) ==> d[lba].len() == SECTOR
}

/// All of `count` sectors from `lba` on can be read.
pub open spec fn readable(d: Disk, lba: int, count: int) -> bool {
    forall|i: int| lba <= i < lba + count ==> #[trigger] d.contains_key(i)
}

/// What `count` sectors from `lba` on hold.
pub open spec fn extent(d: Disk, lba: int, count: int) -> Seq<u8> {
    Seq::new((count * SECTOR) as nat, |i: int| d[lba + i / SECTOR as int][i % SECTOR as int])
}

/// What reading `count` sectors from `lba` on gives.
pub open spec fn disk_read(d: Disk, lba: int, count: int) -> Option<Seq<u8>> {
    if readable(d, lba, count) {
        Some(extent(d, lba, count))
    } else {
        None
    }
}

/// What a disk access is.
pub enum Access {
    Read { lba: int, count: int },
    Write { lba: int, data: Seq<u8> },
}

impl View for DiskOp {
    type V = Access;

    open spec fn view(&self) -> Access {
        match *self {
            DiskOp::Read { lba, count } => Access::Read { lba: lba as int, count: count as int },
            DiskOp::Write { lba, data } => Access::Write { lba: lba as int, data: data@ },
        }
    }
}

impl Access {
    /// `reply` answers this access on disk `d`.
    pub open spec fn answered(self, d: Disk, reply: DiskReply) -> bool {
        match self {
            Access::Read { lba, count } => match disk_read(d, lba, count) {
                Some(bytes) => reply is Data && reply->Data_0@ == bytes,
                None => reply is Failed,
            },
            Access::Write { lba, data } => if d.contains_key(lba) {
                reply is Written
            } else {
                reply is Failed
            },
        }
    }

    /// The disk after this access.
    pub open spec fn after(self, d: Disk) -> Disk {
        match self {
            Access::Read { .. } => d,
            Access::Write { lba, data } => if d.contains_key(lba) {
                d.insert(lba, data)
            } else {
                d
            },
        }
    }

    /// A reply of the right kind and size.
    pub open spec fn fits(self, reply: DiskReply) -> bool {
        match self {
            Access::Read { lba, count } => match reply {
                DiskReply::Data(bytes) => bytes@.len() == count * SECTOR,
                DiskReply::Failed => true,
                DiskReply::Written => false,
            },
            Access::Write { lba, data } => !(reply is Data),
        }
    }
}

/// The geometry of a mounted volume.
#[derive(Debug, Clone, Copy, PartialEq, Eq, Structural)]
pub struct Volume {
    pub sectors_per_cluster: u32,
    /// First sector of the FAT.
    pub fat_lba: u64,
    /// First sector of the cluster heap, where cluster 2 lies.
    pub heap_lba: u64,
    pub cluster_count: u32,
    pub root_cluster: u32,
    /// Allocation bitmap.
    pub bitmap_cluster: u32,
    pub bitmap_bytes: u64,
}

impl Volume {
    /// What every boot sector gives: addresses of 32 bits, clusters of at
    /// least one sector.
    pub open spec fn wf(self) -> bool {
        &&& 1 <= self.sectors_per_cluster <= 0x8000_0000
        &&& self.fat_lba <= u32::MAX
        &&& self.heap_lba <= u32::MAX
    }

    /// Bytes of a cluster.
    pub open spec fn spec_cluster_bytes(self) -> int {
        self.sectors_per_cluster * SECTOR
    }

    /// First sector of a cluster.
    pub open spec fn spec_cluster_lba(self, cluster: int) -> int {
        self.heap_lba + (cluster - 2) * self.sectors_per_cluster
    }

    /// Bytes of a cluster.
    pub fn cluster_bytes(&self) -> (r: u64)
        requires
            self.wf(),
        ensures
            r == self.spec_cluster_bytes(),
            512 <= r <= 0x100_0000_0000,
    {
        self.sectors_per_cluster as u64 * 512
    }

    /// First sector of a cluster.
    pub fn cluster_lba(&self, cluster: u32) -> (r: u64)
        requires
            self.wf(),
            cluster >= 2,
        ensures
            r == self.spec_cluster_lba(cluster as int),
            r <= 0x8000_0001_0000_0000,
    {
        proof {
            lemma_cluster_lba_bound(*self, cluster);
        }
        self.heap_lba + (cluster as u64 - 2) * self.sectors_per_cluster as u64
    }

    /// The sector of the FAT that holds the entry of `cluster`.
    pub open spec fn fat_sector(self, cluster: int) -> int {
        self.fat_lba + cluster * 4 / 512
    }

    /// The FAT entry of `cluster`; an unreadable FAT reads as zero.
    pub open spec fn fat_entry(self, d: Disk, cluster: int) -> int {
        match disk_read(d, self.fat_sector(cluster), 1) {
            Some(b) => le32(b, cluster * 4 % 512),
            None => 0,
        }
    }

    /// The access that reads cluster `cluster`.
    pub open spec fn cluster_access(self, cluster: int) -> Access {
        Access::Read {
            lba: self.spec_cluster_lba(cluster),
            count: self.sectors_per_cluster as int,
        }
    }

    /// The access that reads the FAT sector of `cluster`.
    pub open spec fn fat_access(self, cluster: int) -> Access {
        Access::Read { lba: self.fat_sector(cluster), count: 1 }
    }

    /// What cluster `cluster` holds.
    pub open spec fn cluster(self, d: Disk, cluster: int) -> Option<Seq<u8>> {
        disk_read(d, self.spec_cluster_lba(cluster), self.sectors_per_cluster as int)
    }
}

proof fn lemma_cluster_lba_bound(v: Volume, cluster: u32)
    requires
        v.wf(),
        cluster >= 2,
    ensures
        0 <= (cluster - 2) * v.sectors_per_cluster <= 0x8000_0000_0000_0000,
{
    assert(0 <= (cluster - 2) * v.sectors_per_cluster <= 0x1_0000_0000 * 0x8000_0000)
        by (nonlinear_arith)
        requires
            2 <= cluster <= 0xFFFF_FFFF,
            1 <= v.sectors_per_cluster <= 0x8000_0000,
    ;
}

/// The access that reads a whole cluster.
pub fn cluster_read(vol: &Volume, cluster: u32) -> (r: DiskOp)
    requires
        vol.wf(),
        cluster >= 2,
    ensures
        r@ == vol.cluster_access(cluster as int),
{
    DiskOp::Read { lba: vol.cluster_lba(cluster), count: vol.sectors_per_cluster }
}

/// The access that reads the FAT sector of `cluster`.
pub fn fat_read(vol: &Volume, cluster: u32) -> (r: DiskOp)
    requires
        vol.wf(),
    ensures
        r@ == vol.fat_access(cluster as int),
{
    DiskOp::Read { lba: vol.fat_lba + cluster as u64 * 4 / 512, count: 1 }
}

/// The FAT entry of `cluster` in the sector that was read for it; a failed
/// read gives zero.
pub fn fat_entry(reply: &DiskReply, cluster: u32) -> (r: u32)
    requires
        reply is Data ==> reply->Data_0@.len() == SECTOR,
    ensures
        r == match *reply {
            DiskReply::Data(b) => le32(b@, cluster * 4 % 512),
            _ => 0,
        },
{
    match reply {
        DiskReply::Data(b) => read_le32(b.as_slice(), (cluster as u64 * 4 % 512) as usize),
        _ => 0,
    }
}

} // verus!
