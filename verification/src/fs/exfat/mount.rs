//! Mounting a volume.

use vstd::prelude::*;
use vstd::arithmetic::power2::pow2;
use vstd::string::StringSliceAdditionalSpecFns;
use vstd::utf8::{is_ascii_chars, is_ascii_chars_encode_utf8};
use crate::bytes::{le16, le32, le64, read_le16, read_le32, read_le64, same_bytes};
use crate::inline::{text24, text24_new, text24_push, text24_str};
use super::dir::{ascii_or_mark, entry_at, DIR_ENTRY, ET_BITMAP, ET_END, ET_LABEL};
use super::disk::{
    cluster_read, disk_read, fat_entry, fat_read, Access, Disk, DiskOp, DiskReply, Volume, FAT_EOF,
};
use super::read::chain_next;

verus! {

/// Why a volume is not mounted.
#[derive(Debug, Clone, Copy, PartialEq, Eq, Structural)]
pub enum MountError {
    /// The boot sector is unreadable or not exFAT.
    NoFileSystem,
    /// The sectors are not of 512 bytes.
    SectorSize,
    /// The root directory names no allocation bitmap.
    NoBitmap,
}

/// Bytes of the volume label that are kept.
pub const LABEL_KEPT: usize = 24;

/// The sector is an exFAT boot sector.
pub open spec fn is_boot_sector(b: Seq<u8>) -> bool {
    &&& b.subrange(3, 11) == "EXFAT   ".spec_bytes()
    &&& b[510] == 0x55
    &&& b[511] == 0xAA
}

/// The volume that a boot sector describes, its bitmap not yet known.
pub open spec fn volume_of(b: Seq<u8>) -> Volume {
    Volume {
        sectors_per_cluster: pow2(b[109] as nat) as u32,
        fat_lba: le32(b, 80) as u64,
        heap_lba: le32(b, 88) as u64,
        cluster_count: le32(b, 92) as u32,
        root_cluster: le32(b, 96) as u32,
        bitmap_cluster: 0,
        bitmap_bytes: 0,
    }
}

/// What the root directory says of the volume.
#[verifier::ext_equal]
pub struct RootInfo {
    pub bitmap_cluster: u32,
    pub bitmap_bytes: u64,
    pub label: Seq<char>,
    pub ended: bool,
}

/// `label` with the characters of label entry `e` from the `i`th to the
/// `n`th, as far as they fit.
pub open spec fn label_extended(label: Seq<char>, e: Seq<u8>, i: int, n: int) -> Seq<char>
    decreases n - i,
{
    if i >= n {
        label
    } else {
        let more = if label.len() < LABEL_KEPT {
            label.push(ascii_or_mark(le16(e, 2 + 2 * i)))
        } else {
            label
        };
        label_extended(more, e, i + 1, n)
    }
}

/// Number of characters in label entry `e`.
pub open spec fn label_count(e: Seq<u8>) -> int {
    if e[1] < 11 {
        e[1] as int
    } else {
        11
    }
}

/// The root directory read one entry further.
pub open spec fn info_entry(p: RootInfo, e: Seq<u8>) -> RootInfo {
    if p.ended {
        p
    } else if e[0] == ET_END {
        RootInfo { ended: true, ..p }
    } else if e[0] == ET_BITMAP {
        RootInfo { bitmap_cluster: le32(e, 20) as u32, bitmap_bytes: le64(e, 24) as u64, ..p }
    } else if e[0] == ET_LABEL {
        RootInfo { label: label_extended(p.label, e, 0, label_count(e)), ..p }
    } else {
        p
    }
}

/// The root directory read on from entry `i` to the end of the cluster.
pub open spec fn info_cluster(p: RootInfo, bytes: Seq<u8>, i: int) -> RootInfo
    decreases bytes.len() - i * DIR_ENTRY,
{
    if i < 0 || (i + 1) * DIR_ENTRY > bytes.len() {
        p
    } else {
        info_cluster(info_entry(p, entry_at(bytes, i)), bytes, i + 1)
    }
}

/// The root directory read from cluster `cluster` on; `None` if its chain is
/// longer than `hops` further clusters.
pub open spec fn info_scan(v: Volume, d: Disk, cluster: int, p: RootInfo, hops: nat) -> Option<RootInfo>
    decreases hops, 1int,
{
    if cluster < 2 {
        Some(p)
    } else {
        match v.cluster(d, cluster) {
            None => Some(p),
            Some(bytes) => info_after(v, d, cluster, info_cluster(p, bytes, 0), hops),
        }
    }
}

/// The root directory read on after cluster `cluster`.
pub open spec fn info_after(v: Volume, d: Disk, cluster: int, p: RootInfo, hops: nat) -> Option<RootInfo>
    decreases hops, 0int,
{
    if p.ended {
        Some(p)
    } else if hops == 0 {
        None
    } else {
        match chain_next(v, d, cluster) {
            None => Some(p),
            Some(n) => info_scan(v, d, n, p, (hops - 1) as nat),
        }
    }
}

/// What a mount gives: the volume and its label.
pub type Mounted = Result<(Volume, Seq<char>), MountError>;

/// The mount once the root directory was read.
pub open spec fn concluded(v: Volume, p: RootInfo) -> Mounted {
    if p.bitmap_cluster < 2 {
        Err(MountError::NoBitmap)
    } else {
        Ok(
            (
                Volume { bitmap_cluster: p.bitmap_cluster, bitmap_bytes: p.bitmap_bytes, ..v },
                p.label,
            ),
        )
    }
}

/// The mount once the root directory was read, if it was.
pub open spec fn concluded_if(v: Volume, p: Option<RootInfo>) -> Option<Mounted> {
    match p {
        None => None,
        Some(p) => Some(concluded(v, p)),
    }
}

/// The root directory before any of it was read.
pub open spec fn no_info() -> RootInfo {
    RootInfo { bitmap_cluster: 0, bitmap_bytes: 0, label: Seq::empty(), ended: false }
}

/// The mount of disk `d`; `None` if the root directory is longer than `hops`
/// further clusters.
pub open spec fn mounted_volume(d: Disk, hops: nat) -> Option<Mounted> {
    match disk_read(d, 0, 1) {
        None => Some(Err(MountError::NoFileSystem)),
        Some(b) => if !is_boot_sector(b) {
            Some(Err(MountError::NoFileSystem))
        } else if b[108] != 9 {
            Some(Err(MountError::SectorSize))
        } else {
            let v = volume_of(b);
            concluded_if(v, info_scan(v, d, v.root_cluster as int, no_info(), hops))
        },
    }
}

/// How far a `Mount` has come.
pub enum MountPhase {
    /// Reading the boot sector.
    Boot,
    /// Reading a cluster of the root directory.
    Dir { cluster: u32 },
    /// Looking up the root directory's next cluster.
    DirFat { cluster: u32 },
    /// The volume is mounted.
    Mounted,
    /// The volume is not mounted.
    Failed(MountError),
}

/// Mounts the volume on a disk.
pub struct Mount {
    pub phase: MountPhase,
    pub vol: Volume,
    pub label: heapless::String<24>,
}

impl Mount {
    /// What is known of the root directory.
    pub open spec fn info(self, ended: bool) -> RootInfo {
        RootInfo {
            bitmap_cluster: self.vol.bitmap_cluster,
            bitmap_bytes: self.vol.bitmap_bytes,
            label: text24(self.label),
            ended,
        }
    }

    /// The volume, its bitmap not yet known.
    pub open spec fn base(self) -> Volume {
        Volume { bitmap_cluster: 0, bitmap_bytes: 0, ..self.vol }
    }

    pub open spec fn wf(self) -> bool {
        &&& self.vol.wf()
        &&& is_ascii_chars(text24(self.label))
        &&& text24(self.label).len() <= LABEL_KEPT
        &&& match self.phase {
            MountPhase::Boot => self.info(false) == no_info(),
            MountPhase::Dir { cluster } => cluster >= 2,
            MountPhase::Mounted => self.vol.bitmap_cluster >= 2,
            _ => true,
        }
    }

    /// The disk access that the machine needs next.
    pub open spec fn op(self) -> Option<Access> {
        match self.phase {
            MountPhase::Boot => Some(Access::Read { lba: 0, count: 1 }),
            MountPhase::Dir { cluster } => Some(self.vol.cluster_access(cluster as int)),
            MountPhase::DirFat { cluster } => Some(self.vol.fat_access(cluster as int)),
            _ => None,
        }
    }

    /// Number of clusters of the directory by which the next access moves on.
    pub open spec fn hop(self) -> nat {
        if self.phase is DirFat {
            1
        } else {
            0
        }
    }

    /// Decreases with every access that does not move on in the directory.
    pub open spec fn work(self) -> int {
        match self.phase {
            MountPhase::Boot => 3,
            MountPhase::Dir { .. } => 2,
            MountPhase::DirFat { .. } => 1,
            _ => 0,
        }
    }

    /// What the machine ends with on disk `d`; `None` if the directory is
    /// longer than `hops` further clusters.
    pub open spec fn outcome(self, d: Disk, hops: nat) -> Option<Mounted> {
        let v = self.base();
        match self.phase {
            MountPhase::Boot => mounted_volume(d, hops),
            MountPhase::Dir { cluster } => concluded_if(
                v,
                info_scan(v, d, cluster as int, self.info(false), hops),
            ),
            MountPhase::DirFat { cluster } => concluded_if(
                v,
                info_after(v, d, cluster as int, self.info(false), hops),
            ),
            MountPhase::Mounted => Some(Ok((self.vol, text24(self.label)))),
            MountPhase::Failed(e) => Some(Err(e)),
        }
    }

    /// The shift that gives the size of a cluster is in range, where `reply`
    /// brings a boot sector.
    pub open spec fn shift_ok(self, reply: DiskReply) -> bool {
        self.phase is Boot && reply is Data && is_boot_sector(reply->Data_0@) && reply->Data_0@[108] == 9
            ==> reply->Data_0@[109] < 32
    }

    /// The disk access that the machine needs next; `None` once it has ended.
    pub fn next_op(&self) -> (r: Option<DiskOp>)
        requires
            self.wf(),
        ensures
            match r {
                Some(op) => self.op() == Some(op@),
                None => self.op() is None,
            },
    {
        match self.phase {
            MountPhase::Boot => Some(DiskOp::Read { lba: 0, count: 1 }),
            MountPhase::Dir { cluster } => Some(cluster_read(&self.vol, cluster)),
            MountPhase::DirFat { cluster } => Some(fat_read(&self.vol, cluster)),
            _ => None,
        }
    }

    /// The volume, once it is mounted.
    pub fn volume(&self) -> (r: Option<Volume>)
        ensures
            r == if self.phase is Mounted { Some(self.vol) } else { None },
    {
        match self.phase {
            MountPhase::Mounted => Some(self.vol),
            _ => None,
        }
    }

    /// The label of the volume.
    pub fn label(&self) -> (r: &str)
        ensures
            r@ == text24(self.label),
    {
        text24_str(&self.label)
    }

    /// Takes what came of the access.
    pub fn feed(&mut self, reply: DiskReply)
        requires
            old(self).wf(),
            old(self).op() is Some,
            old(self).op()->0.fits(reply),
            old(self).shift_ok(reply),
        ensures
            final(self).wf(),
            old(self).hop() == 0 ==> 0 <= final(self).work() < old(self).work(),
            forall|d: Disk, hops: nat|
                old(self).op()->0.answered(d, reply) ==> #[trigger] final(self).outcome(d, hops)
                    == old(self).outcome(d, hops + old(self).hop()),
    {
        match self.phase {
            MountPhase::Boot => self.fed_boot(reply),
            MountPhase::Dir { cluster } => match reply {
                DiskReply::Data(bytes) => {
                    let ended = self.read_cluster(bytes.as_slice());
                    if ended {
                        self.conclude(true);
                    } else {
                        self.phase = MountPhase::DirFat { cluster };
                    }
                },
                _ => {
                    self.conclude(false);
                },
            },
            MountPhase::DirFat { cluster } => {
                let next: u32 = fat_entry(&reply, cluster);
                if next < 2 || next == FAT_EOF {
                    self.conclude(false);
                } else {
                    self.phase = MountPhase::Dir { cluster: next };
                }
            },
            _ => {},
        }
    }

    /// The root directory was read.
    fn conclude(&mut self, ended: bool)
        requires
            old(self).vol.wf(),
            is_ascii_chars(text24(old(self).label)),
            text24(old(self).label).len() <= LABEL_KEPT,
        ensures
            final(self).wf(),
            final(self).work() == 0,
            forall|d: Disk, hops: nat|
                #[trigger] final(self).outcome(d, hops) == Some(
                    concluded(old(self).base(), old(self).info(ended)),
                ),
    {
        self.phase = if self.vol.bitmap_cluster < 2 {
            MountPhase::Failed(MountError::NoBitmap)
        } else {
            MountPhase::Mounted
        };
    }

    /// The boot sector was read.
    fn fed_boot(&mut self, reply: DiskReply)
        requires
            old(self).wf(),
            old(self).phase is Boot,
            old(self).op()->0.fits(reply),
            old(self).shift_ok(reply),
        ensures
            final(self).wf(),
            0 <= final(self).work() < old(self).work(),
            forall|d: Disk, hops: nat|
                old(self).op()->0.answered(d, reply) ==> #[trigger] final(self).outcome(d, hops)
                    == old(self).outcome(d, hops),
    {
        let b: Vec<u8> = match reply {
            DiskReply::Data(b) => b,
            _ => {
                self.phase = MountPhase::Failed(MountError::NoFileSystem);
                return;
            },
        };
        let magic = vstd::slice::slice_subrange(b.as_slice(), 3, 11);
        if !same_bytes(magic, "EXFAT   ".as_bytes()) || b[510] != 0x55 || b[511] != 0xAA {
            self.phase = MountPhase::Failed(MountError::NoFileSystem);
            return;
        }
        if b[108] != 9 {
            self.phase = MountPhase::Failed(MountError::SectorSize);
            return;
        }
        let shift: u8 = b[109];
        proof {
            vstd::bits::lemma_u32_pow2_no_overflow(shift as nat);
            vstd::bits::lemma_u32_shl_is_mul(1, shift as u32);
            vstd::arithmetic::power2::lemma_pow2_pos(shift as nat);
            vstd::arithmetic::power2::lemma2_to64();
            if shift < 31 {
                vstd::arithmetic::power2::lemma_pow2_strictly_increases(shift as nat, 31);
            }
        }
        self.vol = Volume {
            sectors_per_cluster: 1u32 << (shift as u32),
            fat_lba: read_le32(b.as_slice(), 80) as u64,
            heap_lba: read_le32(b.as_slice(), 88) as u64,
            cluster_count: read_le32(b.as_slice(), 92),
            root_cluster: read_le32(b.as_slice(), 96),
            bitmap_cluster: 0,
            bitmap_bytes: 0,
        };
        assert(self.vol == volume_of(b@));
        if self.vol.root_cluster < 2 {
            self.conclude(false);
        } else {
            self.phase = MountPhase::Dir { cluster: self.vol.root_cluster };
        }
    }

    /// Reads the entries of a cluster of the root directory. `true` at its
    /// end.
    fn read_cluster(&mut self, bytes: &[u8]) -> (ended: bool)
        requires
            old(self).vol.wf(),
            is_ascii_chars(text24(old(self).label)),
            text24(old(self).label).len() <= LABEL_KEPT,
        ensures
            final(self).vol.wf(),
            is_ascii_chars(text24(final(self).label)),
            text24(final(self).label).len() <= LABEL_KEPT,
            final(self).base() == old(self).base(),
            final(self).phase == old(self).phase,
            final(self).info(ended) == info_cluster(old(self).info(false), bytes@, 0),
    {
        let mut i: usize = 0;
        while bytes.len() - i * 32 >= 32
            invariant
                i * 32 <= bytes@.len(),
                self.vol.wf(),
                is_ascii_chars(text24(self.label)),
                text24(self.label).len() <= LABEL_KEPT,
                self.base() == old(self).base(),
                self.phase == old(self).phase,
                info_cluster(old(self).info(false), bytes@, 0) == info_cluster(
                    self.info(false),
                    bytes@,
                    i as int,
                ),
            decreases bytes@.len() - i * 32,
        {
            let e = vstd::slice::slice_subrange(bytes, i * 32, i * 32 + 32);
            assert(e@ == entry_at(bytes@, i as int));
            let kind: u8 = e[0];
            if kind == ET_END {
                proof {
                    lemma_info_ended_stays(self.info(true), bytes@, i as int + 1);
                }
                return true;
            }
            if kind == ET_BITMAP {
                self.vol.bitmap_cluster = read_le32(e, 20);
                self.vol.bitmap_bytes = read_le64(e, 24);
            } else if kind == ET_LABEL {
                extend_label(&mut self.label, e);
            }
            i += 1;
        }
        false
    }
}

/// Appends the characters of a label entry.
fn extend_label(label: &mut heapless::String<24>, e: &[u8])
    requires
        is_ascii_chars(text24(*old(label))),
        text24(*old(label)).len() <= LABEL_KEPT,
        e@.len() == DIR_ENTRY,
    ensures
        is_ascii_chars(text24(*final(label))),
        text24(*final(label)).len() <= LABEL_KEPT,
        text24(*final(label)) == label_extended(text24(*old(label)), e@, 0, label_count(e@)),
{
    let count: usize = if e[1] < 11 { e[1] as usize } else { 11 };
    let mut i: usize = 0;
    while i < count
        invariant
            i <= count <= 11,
            e@.len() == DIR_ENTRY,
            is_ascii_chars(text24(*label)),
            text24(*label).len() <= LABEL_KEPT,
            label_extended(text24(*old(label)), e@, 0, count as int) == label_extended(
                text24(*label),
                e@,
                i as int,
                count as int,
            ),
        decreases count - i,
    {
        let c: u16 = read_le16(e, 2 + 2 * i);
        let ascii: char = if c < 0x80 { c as u8 as char } else { '?' };
        proof {
            is_ascii_chars_encode_utf8(text24(*label));
            is_ascii_chars_encode_utf8(seq![ascii]);
        }
        let _ = text24_push(label, ascii);
        i += 1;
    }
}

/// Past the end marker nothing is read.
proof fn lemma_info_ended_stays(p: RootInfo, bytes: Seq<u8>, i: int)
    requires
        p.ended,
    ensures
        info_cluster(p, bytes, i) == p,
    decreases bytes.len() - i * DIR_ENTRY,
{
    if 0 <= i && (i + 1) * DIR_ENTRY <= bytes.len() {
        lemma_info_ended_stays(p, bytes, i + 1);
    }
}

/// Mounts the exFAT volume on a disk.
pub fn mount() -> (r: Mount)
    ensures
        r.wf(),
        forall|d: Disk, hops: nat| #[trigger] r.outcome(d, hops) == mounted_volume(d, hops),
{
    Mount {
        phase: MountPhase::Boot,
        vol: Volume {
            sectors_per_cluster: 1,
            fat_lba: 0,
            heap_lba: 0,
            cluster_count: 0,
            root_cluster: 0,
            bitmap_cluster: 0,
            bitmap_bytes: 0,
        },
        label: text24_new(),
    }
}

/// Whether a volume is mounted.
pub fn mounted(volume: &Option<Volume>) -> (r: bool)
    ensures
        r == (*volume is Some),
{
    volume.is_some()
}

} // verus!
