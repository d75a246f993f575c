//! Creating files in the root directory.

use vstd::prelude::*;
use vstd::string::StringSliceAdditionalSpecFns;
use crate::bytes::{splice, spliced};
use super::dir::{DIR_ENTRY, ET_END};
use super::disk::{
    cluster_read, disk_read, fat_entry, fat_read, Access, Disk, DiskOp, DiskReply, Volume, FAT_EOF,
    SECTOR,
};
use super::entry_set::{build_entry_set, entry_set};
use super::read::{chain_next, file_contents, read_file, ReadFile, ReadPhase};

verus! {

/// Bits of the allocation bitmap in one sector.
pub const SECTOR_BITS: u64 = 4096;

/// Why a file is not created.
#[derive(Debug, Clone, Copy, PartialEq, Eq, Structural)]
pub enum CreateError {
    BadName,
    Exists,
    NotMounted,
    NoSpace,
    DataWrite,
    RootRead,
    NoRoom,
    DirWrite,
    RootFull,
}

impl CreateError {
    /// The error in words.
    pub open spec fn text(self) -> Seq<char> {
        match self {
            CreateError::BadName => "name must be ASCII, 1-30 chars"@,
            CreateError::Exists => "file already exists"@,
            CreateError::NotMounted => "not mounted"@,
            CreateError::NoSpace => "no contiguous space"@,
            CreateError::DataWrite => "data write failed"@,
            CreateError::RootRead => "root dir read failed"@,
            CreateError::NoRoom => "no room in root directory cluster"@,
            CreateError::DirWrite => "dir write failed"@,
            CreateError::RootFull => "root directory is full"@,
        }
    }

    /// The error in words.
    pub fn message(self) -> (r: &'static str)
        ensures
            r@ == self.text(),
    {
        match self {
            CreateError::BadName => "name must be ASCII, 1-30 chars",
            CreateError::Exists => "file already exists",
            CreateError::NotMounted => "not mounted",
            CreateError::NoSpace => "no contiguous space",
            CreateError::DataWrite => "data write failed",
            CreateError::RootRead => "root dir read failed",
            CreateError::NoRoom => "no room in root directory cluster",
            CreateError::DirWrite => "dir write failed",
            CreateError::RootFull => "root directory is full",
        }
    }
}

/// What a creation gives.
pub type Created = Result<(), CreateError>;

/// Bit `k` of a sector of the bitmap is set.
pub open spec fn bit_is_set(bytes: Seq<u8>, k: int) -> bool {
    bytes[k / 8] & (1u8 << ((k % 8) as u8)) != 0
}

/// `bytes` with the bits from `from` up to `to` set.
#[verifier::opaque]
pub open spec fn bits_set(bytes: Seq<u8>, from: int, to: int) -> Seq<u8>
    decreases to - from,
{
    if from >= to {
        bytes
    } else {
        bits_set(
            bytes.update(from / 8, bytes[from / 8] | (1u8 << ((from % 8) as u8))),
            from + 1,
            to,
        )
    }
}

/// How a search for clear bits stands after a sector.
pub enum Search {
    /// A run was found, from this bit on.
    Found(int),
    /// The last cluster was met.
    End,
    /// The search goes on with a run that began at `start`.
    Run { start: int, len: int },
}

/// The search for `count` clear bits in a row, from bit `k` of a sector whose
/// first bit is `base`; only the first `limit` bits count.
#[verifier::opaque]
pub open spec fn search_sector(
    bytes: Seq<u8>,
    base: int,
    k: int,
    limit: int,
    count: int,
    start: int,
    len: int,
) -> Search
    decreases SECTOR_BITS - k,
{
    if k >= SECTOR_BITS {
        Search::Run { start, len }
    } else if base + k >= limit {
        Search::End
    } else if bit_is_set(bytes, k) {
        search_sector(bytes, base, k + 1, limit, count, start, 0)
    } else {
        let begin = if len == 0 { base + k } else { start };
        if len + 1 == count {
            Search::Found(begin)
        } else {
            search_sector(bytes, base, k + 1, limit, count, begin, len + 1)
        }
    }
}

impl Volume {
    /// First sector of the allocation bitmap.
    pub open spec fn bitmap_lba(self) -> int {
        self.spec_cluster_lba(self.bitmap_cluster as int)
    }

    /// Sectors of the allocation bitmap.
    pub open spec fn bitmap_sectors(self) -> int {
        (self.bitmap_bytes + 511) / 512
    }
}

/// The first bit of the first run of `count` clear bits, searched from sector
/// `s` of the bitmap on; `None` where there is none or a sector is unreadable.
#[verifier::opaque]
pub open spec fn search(v: Volume, d: Disk, s: int, count: int, start: int, len: int) -> Option<int>
    decreases v.bitmap_sectors() - s,
{
    if s >= v.bitmap_sectors() {
        None
    } else {
        match disk_read(d, v.bitmap_lba() + s, 1) {
            None => None,
            Some(bytes) => match search_sector(
                bytes,
                s * SECTOR_BITS,
                0,
                v.cluster_count as int,
                count,
                start,
                len,
            ) {
                Search::Found(b) => Some(b),
                Search::End => None,
                Search::Run { start, len } => search(v, d, s + 1, count, start, len),
            },
        }
    }
}

/// The end of the part of a run of bits that lies in the sector of `bit`.
pub open spec fn part_end(bit: int, end: int) -> int {
    let next = (bit / SECTOR_BITS as int + 1) * SECTOR_BITS;
    if end < next {
        end
    } else {
        next
    }
}

/// The disk with the bits from `bit` up to `end` set in the bitmap; `false`
/// where a sector is unreadable, which leaves the rest unset.
#[verifier::opaque]
pub open spec fn marked(v: Volume, d: Disk, bit: int, end: int) -> (bool, Disk)
    decreases end - bit,
    when bit >= 0
{
    if bit >= end {
        (true, d)
    } else {
        let s = bit / SECTOR_BITS as int;
        let lba = v.bitmap_lba() + s;
        match disk_read(d, lba, 1) {
            None => (false, d),
            Some(bytes) => {
                let to = part_end(bit, end);
                let base = s * SECTOR_BITS;
                marked(v, d.insert(lba, bits_set(bytes, bit - base, to - base)), to, end)
            },
        }
    }
}

/// The sector of `data` that begins at byte `at`, padded with zeros.
pub open spec fn padded_sector(data: Seq<u8>, at: int) -> Seq<u8> {
    Seq::new(SECTOR as nat, |i: int| if at + i < data.len() { data[at + i] } else { 0u8 })
}

/// The disk with `data` written from byte `at` on, the first byte of the data
/// at the start of sector `lba`.
#[verifier::opaque]
pub open spec fn data_written(d: Disk, lba: int, data: Seq<u8>, at: int) -> (bool, Disk)
    decreases if at < data.len() { data.len() - at } else { 0 },
{
    if at < 0 || at >= data.len() {
        (true, d)
    } else {
        let here = lba + at / 512;
        if d.contains_key(here) {
            data_written(d.insert(here, padded_sector(data, at)), lba, data, at + 512)
        } else {
            (false, d)
        }
    }
}

/// The first end marker among the entries of a cluster from the `i`th on.
#[verifier::opaque]
pub open spec fn end_entry(bytes: Seq<u8>, i: int) -> Option<int>
    decreases bytes.len() - i * DIR_ENTRY,
{
    if i < 0 || (i + 1) * DIR_ENTRY > bytes.len() {
        None
    } else if bytes[i * DIR_ENTRY] == ET_END {
        Some(i)
    } else {
        end_entry(bytes, i + 1)
    }
}

/// The disk with sectors `s` to `last` of a cluster written.
#[verifier::opaque]
pub open spec fn sectors_written(d: Disk, lba: int, bytes: Seq<u8>, s: int, last: int) -> (bool, Disk)
    decreases last + 1 - s,
{
    if s > last {
        (true, d)
    } else if d.contains_key(lba + s) {
        sectors_written(
            d.insert(lba + s, bytes.subrange(s * SECTOR, (s + 1) * SECTOR)),
            lba,
            bytes,
            s + 1,
            last,
        )
    } else {
        (false, d)
    }
}

/// The entry set appended at the end marker of a directory, from cluster
/// `cluster` on; `None` if that is more than `hops` further clusters away.
#[verifier::opaque]
pub open spec fn appended(v: Volume, d: Disk, cluster: int, set: Seq<u8>, hops: nat) -> Option<
    (Created, Disk),
>
    decreases hops, 1int,
{
    if cluster < 2 {
        Some((Err(CreateError::RootRead), d))
    } else {
        match v.cluster(d, cluster) {
            None => Some((Err(CreateError::RootRead), d)),
            Some(bytes) => match end_entry(bytes, 0) {
                Some(pos) => Some(appended_here(v, d, cluster, bytes, pos * DIR_ENTRY, set)),
                None => appended_after(v, d, cluster, set, hops),
            },
        }
    }
}

/// The entry set appended after cluster `cluster`, which is full.
#[verifier::opaque]
pub open spec fn appended_after(v: Volume, d: Disk, cluster: int, set: Seq<u8>, hops: nat) -> Option<
    (Created, Disk),
>
    decreases hops, 0int,
{
    if hops == 0 {
        None
    } else {
        match chain_next(v, d, cluster) {
            None => Some((Err(CreateError::RootFull), d)),
            Some(n) => appended(v, d, n, set, (hops - 1) as nat),
        }
    }
}

/// The entry set written over the entries of a cluster from byte `off` on.
pub open spec fn appended_here(
    v: Volume,
    d: Disk,
    cluster: int,
    bytes: Seq<u8>,
    off: int,
    set: Seq<u8>,
) -> (Created, Disk) {
    if off + set.len() > v.spec_cluster_bytes() {
        (Err(CreateError::NoRoom), d)
    } else {
        let new = spliced(bytes, off, set);
        let w = sectors_written(
            d,
            v.spec_cluster_lba(cluster),
            new,
            off / 512,
            (off + set.len() - 1) / 512,
        );
        (if w.0 { Ok(()) } else { Err(CreateError::DirWrite) }, w.1)
    }
}

/// Number of clusters that `len` bytes take.
pub open spec fn clusters_for(v: Volume, len: int) -> int {
    (len + v.spec_cluster_bytes() - 1) / v.spec_cluster_bytes()
}

/// The name is one that can be created.
pub open spec fn good_name(name: Seq<char>) -> bool {
    vstd::utf8::is_ascii_chars(name) && 1 <= name.len() <= 30
}

/// The creation once the file's clusters are allocated from bit `bit` on.
pub open spec fn with_clusters(
    v: Volume,
    d: Disk,
    name: Seq<u8>,
    data: Seq<u8>,
    bit: int,
    hops: nat,
) -> Option<(Created, Disk)> {
    let w = data_written(d, v.spec_cluster_lba(bit + 2), data, 0);
    if w.0 {
        appended(
            v,
            w.1,
            v.root_cluster as int,
            entry_set(name, data.len() as u64, (bit + 2) as u32),
            hops,
        )
    } else {
        Some((Err(CreateError::DataWrite), w.1))
    }
}

/// The creation once it is known that there is no such file.
pub open spec fn created_new(v: Volume, d: Disk, name: Seq<u8>, data: Seq<u8>, hops: nat) -> Option<
    (Created, Disk),
> {
    if data.len() == 0 {
        appended(v, d, v.root_cluster as int, entry_set(name, 0, 0), hops)
    } else {
        let count = clusters_for(v, data.len() as int);
        match search(v, d, 0, count, 0, 0) {
            None => Some((Err(CreateError::NoSpace), d)),
            Some(bit) => {
                let m = marked(v, d, bit, bit + count);
                if m.0 {
                    with_clusters(v, m.1, name, data, bit, hops)
                } else {
                    Some((Err(CreateError::NoSpace), m.1))
                }
            },
        }
    }
}

/// What creating file `name` with `data` on disk `d` gives, and the disk
/// afterwards; `None` if looking for the file takes more than `look` further
/// clusters of the directory, or finding its end more than `hops`.
pub open spec fn created(
    v: Volume,
    d: Disk,
    name: Seq<u8>,
    data: Seq<u8>,
    look: nat,
    hops: nat,
) -> Option<(Created, Disk)> {
    match file_contents(v, d, name, look) {
        None => None,
        Some(Some(_)) => Some((Err(CreateError::Exists), d)),
        Some(None) => created_new(v, d, name, data, hops),
    }
}

/// How far a `CreateFile` has come.
#[derive(Clone, Copy)]
pub enum CreatePhase {
    /// Looking whether the file exists.
    Lookup,
    /// Searching sector `sector` of the bitmap, with a run of `len` clear bits
    /// from `start` on before it.
    Search { sector: u64, start: u64, len: u64 },
    /// Reading the sector of the bitmap with bit `bit`.
    MarkRead { start: u64, bit: u64 },
    /// Writing the sector of the bitmap with bit `bit`.
    MarkWrite { start: u64, bit: u64 },
    /// Writing the data from byte `at` on.
    Data { start: u64, at: u64 },
    /// Reading a cluster of the directory.
    Dir { cluster: u32 },
    /// Looking up the directory's next cluster.
    DirFat { cluster: u32 },
    /// Writing sector `s` of a cluster of the directory.
    DirWrite { cluster: u32, s: u64, last: u64 },
    /// The creation has ended.
    Done(Created),
}

/// Creates a file in the root directory.
pub struct CreateFile<'a> {
    pub vol: Volume,
    pub name: &'a str,
    pub data: &'a [u8],
    pub phase: CreatePhase,
    /// The search for a file of that name.
    pub lookup: ReadFile<'a>,
    /// The entry set of the file.
    pub set: Vec<u8>,
    /// What is to be written.
    pub buf: Vec<u8>,
}

impl<'a> CreateFile<'a> {
    /// Number of clusters that the data takes.
    pub open spec fn count(self) -> int {
        clusters_for(self.vol, self.data@.len() as int)
    }

    /// The set belongs to a file whose data begins at `first`.
    pub open spec fn set_ok(self) -> bool {
        1 <= self.set@.len() <= 128
    }

    pub open spec fn wf(self) -> bool {
        let n = self.data@.len();
        &&& self.vol.wf()
        &&& self.vol.bitmap_cluster >= 2
        &&& self.vol.cluster_count < u32::MAX
        &&& good_name(self.name@)
        &&& match self.phase {
            CreatePhase::Lookup => self.lookup.wf() && self.lookup.op() is Some,
            CreatePhase::Search { sector, start, len } => {
                &&& n > 0
                &&& sector < self.vol.bitmap_sectors()
                &&& len < self.count()
                &&& len > 0 ==> start + len == sector * SECTOR_BITS
            },
            CreatePhase::MarkRead { start, bit } => {
                &&& n > 0
                &&& start <= bit < start + self.count() <= self.vol.cluster_count
            },
            CreatePhase::MarkWrite { start, bit } => {
                &&& n > 0
                &&& start <= bit < start + self.count() <= self.vol.cluster_count
                &&& self.buf@.len() == SECTOR
            },
            CreatePhase::Data { start, at } => {
                &&& start + 1 <= self.vol.cluster_count
                &&& at < n
                &&& at % 512 == 0
                &&& self.buf@ == padded_sector(self.data@, at as int)
            },
            CreatePhase::Dir { cluster } => cluster >= 2 && self.set_ok(),
            CreatePhase::DirFat { cluster } => self.set_ok(),
            CreatePhase::DirWrite { cluster, s, last } => {
                &&& cluster >= 2
                &&& s <= last < self.vol.sectors_per_cluster
                &&& self.buf@.len() == self.vol.spec_cluster_bytes()
            },
            CreatePhase::Done(r) => true,
        }
    }

    /// The disk access that the machine needs next.
    pub open spec fn op(self) -> Option<Access> {
        match self.phase {
            CreatePhase::Lookup => self.lookup.op(),
            CreatePhase::Search { sector, .. } => Some(
                Access::Read { lba: self.vol.bitmap_lba() + sector, count: 1 },
            ),
            CreatePhase::MarkRead { start, bit } => Some(
                Access::Read { lba: self.vol.bitmap_lba() + bit as int / 4096, count: 1 },
            ),
            CreatePhase::MarkWrite { start, bit } => Some(
                Access::Write { lba: self.vol.bitmap_lba() + bit as int / 4096, data: self.buf@ },
            ),
            CreatePhase::Data { start, at } => Some(
                Access::Write {
                    lba: self.vol.spec_cluster_lba(start + 2) + at as int / 512,
                    data: self.buf@,
                },
            ),
            CreatePhase::Dir { cluster } => Some(self.vol.cluster_access(cluster as int)),
            CreatePhase::DirFat { cluster } => Some(self.vol.fat_access(cluster as int)),
            CreatePhase::DirWrite { cluster, s, last } => Some(
                Access::Write {
                    lba: self.vol.spec_cluster_lba(cluster as int) + s,
                    data: self.buf@.subrange(s * SECTOR, (s + 1) * SECTOR),
                },
            ),
            CreatePhase::Done(_) => None,
        }
    }

    /// What the machine ends with on disk `d`, and the disk then; `None` if
    /// looking for the file takes more than `look` further clusters of the
    /// directory, or finding its end more than `hops`.
    #[verifier::opaque]
    pub open spec fn outcome(self, d: Disk, look: nat, hops: nat) -> Option<(Created, Disk)> {
        let v = self.vol;
        let name = self.name.spec_bytes();
        let data = self.data@;
        match self.phase {
            CreatePhase::Lookup => match self.lookup.outcome(d, look) {
                None => None,
                Some(Some(_)) => Some((Err(CreateError::Exists), d)),
                Some(None) => created_new(v, d, name, data, hops),
            },
            CreatePhase::Search { sector, start, len } => match search(
                v,
                d,
                sector as int,
                self.count(),
                start as int,
                len as int,
            ) {
                None => Some((Err(CreateError::NoSpace), d)),
                Some(bit) => {
                    let m = marked(v, d, bit, bit + self.count());
                    if m.0 {
                        with_clusters(v, m.1, name, data, bit, hops)
                    } else {
                        Some((Err(CreateError::NoSpace), m.1))
                    }
                },
            },
            CreatePhase::MarkRead { start, bit } => {
                let m = marked(v, d, bit as int, start + self.count());
                if m.0 {
                    with_clusters(v, m.1, name, data, start as int, hops)
                } else {
                    Some((Err(CreateError::NoSpace), m.1))
                }
            },
            CreatePhase::MarkWrite { start, bit } => {
                let lba = v.bitmap_lba() + bit as int / 4096;
                if d.contains_key(lba) {
                    let m = marked(
                        v,
                        d.insert(lba, self.buf@),
                        part_end(bit as int, start + self.count()),
                        start + self.count(),
                    );
                    if m.0 {
                        with_clusters(v, m.1, name, data, start as int, hops)
                    } else {
                        Some((Err(CreateError::NoSpace), m.1))
                    }
                } else {
                    Some((Err(CreateError::NoSpace), d))
                }
            },
            CreatePhase::Data { start, at } => {
                let w = data_written(d, v.spec_cluster_lba(start + 2), data, at as int);
                if w.0 {
                    appended(
                        v,
                        w.1,
                        v.root_cluster as int,
                        entry_set(name, data.len() as u64, (start + 2) as u32),
                        hops,
                    )
                } else {
                    Some((Err(CreateError::DataWrite), w.1))
                }
            },
            CreatePhase::Dir { cluster } => appended(v, d, cluster as int, self.set@, hops),
            CreatePhase::DirFat { cluster } => appended_after(v, d, cluster as int, self.set@, hops),
            CreatePhase::DirWrite { cluster, s, last } => {
                let w = sectors_written(
                    d,
                    v.spec_cluster_lba(cluster as int),
                    self.buf@,
                    s as int,
                    last as int,
                );
                Some((if w.0 { Ok(()) } else { Err(CreateError::DirWrite) }, w.1))
            },
            CreatePhase::Done(r) => Some((r, d)),
        }
    }

    /// Number of clusters of the directory by which the next access moves the
    /// search for the file on.
    pub open spec fn look_hop(self) -> nat {
        if self.phase is Lookup {
            self.lookup.hop()
        } else {
            0
        }
    }

    /// Number of clusters of the directory by which the next access moves the
    /// search for its end on.
    pub open spec fn hop(self) -> nat {
        if self.phase is DirFat {
            1
        } else {
            0
        }
    }

    /// The stages of a creation, in order of decreasing number.
    pub open spec fn stage(self) -> int {
        match self.phase {
            CreatePhase::Lookup => 6,
            CreatePhase::Search { .. } => 5,
            CreatePhase::MarkRead { .. } => 4,
            CreatePhase::MarkWrite { .. } => 4,
            CreatePhase::Data { .. } => 3,
            CreatePhase::Dir { .. } => 2,
            CreatePhase::DirFat { .. } => 2,
            CreatePhase::DirWrite { .. } => 1,
            CreatePhase::Done(_) => 0,
        }
    }

    /// Within a stage, decreases with every access that does not move on in
    /// the directory.
    pub open spec fn work(self) -> int {
        match self.phase {
            CreatePhase::Lookup => self.lookup.work(),
            CreatePhase::Search { sector, .. } => self.vol.bitmap_sectors() - sector,
            CreatePhase::MarkRead { start, bit } => 2 * (start + self.count() - bit) + 1,
            CreatePhase::MarkWrite { start, bit } => 2 * (start + self.count() - bit),
            CreatePhase::Data { start, at } => self.data@.len() - at,
            CreatePhase::Dir { .. } => 2,
            CreatePhase::DirFat { .. } => 1,
            CreatePhase::DirWrite { cluster, s, last } => last - s,
            CreatePhase::Done(_) => 0,
        }
    }

    /// The machine has moved on from `before`.
    pub open spec fn progressed(self, before: CreateFile<'a>) -> bool {
        ||| self.stage() < before.stage()
        ||| self.stage() == before.stage() && 0 <= self.work() < before.work()
    }
}

/// Reads a sector's worth of `data` from byte `at` on, padded with zeros.
fn pad_sector(data: &[u8], at: usize) -> (r: Vec<u8>)
    requires
        at < data@.len(),
    ensures
        r@ == padded_sector(data@, at as int),
{
    assert(data@.len() == data.len());
    let mut out: Vec<u8> = Vec::new();
    let mut i: usize = 0;
    while i < 512
        invariant
            i <= 512,
            at < data@.len() <= usize::MAX,
            out@ =~= padded_sector(data@, at as int).take(i as int),
        decreases 512 - i,
    {
        if i < data.len() - at {
            out.push(data[at + i]);
        } else {
            out.push(0);
        }
        i += 1;
    }
    assert(padded_sector(data@, at as int).take(512) =~= padded_sector(data@, at as int));
    out
}

/// Sets the bits from `from` up to `to` in a sector of the bitmap.
fn set_bits(bytes: &mut Vec<u8>, from: usize, to: usize)
    requires
        old(bytes)@.len() == SECTOR,
        from <= to <= SECTOR_BITS,
    ensures
        final(bytes)@ == bits_set(old(bytes)@, from as int, to as int),
        final(bytes)@.len() == SECTOR,
{
    let mut k: usize = from;
    while k < to
        invariant
            from <= k <= to <= SECTOR_BITS,
            bytes@.len() == SECTOR,
            bits_set(old(bytes)@, from as int, to as int) == bits_set(bytes@, k as int, to as int),
        decreases to - k,
    {
        reveal_with_fuel(bits_set, 2);
        let i: usize = k / 8;
        let b: u8 = bytes[i] | (1u8 << ((k % 8) as u8));
        bytes.set(i, b);
        k += 1;
    }
    reveal_with_fuel(bits_set, 1);
}

/// The outcome of the search of one sector.
enum SectorSearch {
    Found(u64),
    End,
    Run { start: u64, len: u64 },
}

/// Searches a sector of the bitmap for `count` clear bits in a row.
fn bitmap_alloc(bytes: &[u8], sector: u64, limit: u32, count: u64, start: u64, len: u64) -> (r:
    SectorSearch)
    requires
        bytes@.len() == SECTOR,
        count > 0,
        len < count,
        len > 0 ==> start + len == sector * SECTOR_BITS,
    ensures
        match (
            r,
            search_sector(
                bytes@,
                sector * SECTOR_BITS,
                0,
                limit as int,
                count as int,
                start as int,
                len as int,
            ),
        ) {
            (SectorSearch::Found(b), Search::Found(c)) => b == c && b + count <= limit,
            (SectorSearch::End, Search::End) => true,
            (SectorSearch::Run { start, len }, Search::Run { start: s2, len: l2 }) => {
                &&& start == s2 && len == l2
                &&& len < count
                &&& len > 0 ==> start + len == (sector + 1) * SECTOR_BITS
            },
            _ => false,
        },
{
    reveal_with_fuel(search_sector, 1);
    if sector >= 0x10_0000 {
        return SectorSearch::End;
    }
    let base: u64 = sector * 4096;
    let mut run_start: u64 = start;
    let mut run_len: u64 = len;
    let mut k: u64 = 0;
    let ghost all = search_sector(
        bytes@,
        base as int,
        0,
        limit as int,
        count as int,
        start as int,
        len as int,
    );
    while k < 4096
        invariant
            k <= 4096,
            bytes@.len() == SECTOR,
            sector < 0x10_0000,
            base == sector * 4096,
            run_len < count,
            run_len > 0 ==> run_start + run_len == base + k,
            all == search_sector(
                bytes@,
                base as int,
                0,
                limit as int,
                count as int,
                start as int,
                len as int,
            ),
            all == search_sector(
                bytes@,
                base as int,
                k as int,
                limit as int,
                count as int,
                run_start as int,
                run_len as int,
            ),
        decreases 4096 - k,
    {
        reveal_with_fuel(search_sector, 2);
        if base + k >= limit as u64 {
            return SectorSearch::End;
        }
        if bytes[(k / 8) as usize] & (1u8 << ((k % 8) as u8)) == 0 {
            if run_len == 0 {
                run_start = base + k;
            }
            run_len += 1;
            if run_len == count {
                return SectorSearch::Found(run_start);
            }
        } else {
            run_len = 0;
        }
        k += 1;
    }
    SectorSearch::Run { start: run_start, len: run_len }
}

/// The number of the first entry of a cluster that marks the end.
fn find_end(bytes: &[u8]) -> (r: Option<usize>)
    ensures
        match r {
            Some(i) => end_entry(bytes@, 0) == Some(i as int) && (i + 1) * DIR_ENTRY <= bytes@.len(),
            None => end_entry(bytes@, 0) is None,
        },
{
    let mut i: usize = 0;
    while bytes.len() - i * 32 >= 32
        invariant
            i * 32 <= bytes@.len(),
            end_entry(bytes@, 0) == end_entry(bytes@, i as int),
        decreases bytes@.len() - i * 32,
    {
        reveal_with_fuel(end_entry, 2);
        if bytes[i * 32] == ET_END {
            return Some(i);
        }
        i += 1;
    }
    reveal_with_fuel(end_entry, 1);
    None
}

impl<'a> CreateFile<'a> {
    /// What does not change while the machine runs.
    spec fn same_job(self, before: CreateFile<'a>) -> bool {
        &&& self.vol == before.vol
        &&& self.name == before.name
        &&& self.data == before.data
    }

    /// The part of `wf` that is not about the phase.
    spec fn job_wf(self) -> bool {
        &&& self.vol.wf()
        &&& self.vol.bitmap_cluster >= 2
        &&& self.vol.cluster_count < u32::MAX
        &&& good_name(self.name@)
    }

    /// The number of clusters that the data takes.
    fn clusters(&self) -> (r: u64)
        requires
            self.vol.wf(),
            self.data@.len() > 0,
        ensures
            r == self.count(),
            r > 0,
    {
        let n: u64 = self.data.len() as u64;
        let c: u64 = self.vol.cluster_bytes();
        proof {
            vstd::arithmetic::div_mod::lemma_div_plus_one(n - 1, c as int);
            vstd::arithmetic::div_mod::lemma_div_nonincreasing(n - 1, c as int);
            vstd::arithmetic::div_mod::lemma_div_pos_is_pos(n - 1, c as int);
        }
        (n - 1) / c + 1
    }

    /// The disk access that the machine needs next; `None` once it has ended.
    pub fn next_op(&self) -> (r: Option<DiskOp>)
        requires
            self.wf(),
        ensures
            match r {
                Some(op) => self.op() == Some(op@),
                None => self.op() is None,
            },
    {
        match self.phase {
            CreatePhase::Lookup => self.lookup.next_op(),
            CreatePhase::Search { sector, start, len } => {
                let lba: u64 = self.vol.cluster_lba(self.vol.bitmap_cluster);
                Some(DiskOp::Read { lba: lba + sector, count: 1 })
            },
            CreatePhase::MarkRead { start, bit } => {
                let lba: u64 = self.vol.cluster_lba(self.vol.bitmap_cluster);
                Some(DiskOp::Read { lba: lba + bit / 4096, count: 1 })
            },
            CreatePhase::MarkWrite { start, bit } => {
                let lba: u64 = self.vol.cluster_lba(self.vol.bitmap_cluster);
                Some(DiskOp::Write { lba: lba + bit / 4096, data: copy(self.buf.as_slice()) })
            },
            CreatePhase::Data { start, at } => {
                let lba: u64 = self.vol.cluster_lba((start + 2) as u32);
                Some(DiskOp::Write { lba: lba + at / 512, data: copy(self.buf.as_slice()) })
            },
            CreatePhase::Dir { cluster } => Some(cluster_read(&self.vol, cluster)),
            CreatePhase::DirFat { cluster } => Some(fat_read(&self.vol, cluster)),
            CreatePhase::DirWrite { cluster, s, last } => {
                let lba: u64 = self.vol.cluster_lba(cluster);
                assert((s + 1) * 512 <= self.buf@.len()) by (nonlinear_arith)
                    requires
                        s < self.vol.sectors_per_cluster,
                        self.buf@.len() == self.vol.sectors_per_cluster * 512,
                ;
                assert(self.buf@.len() == self.buf.len());
                let part = vstd::slice::slice_subrange(
                    self.buf.as_slice(),
                    s as usize * 512,
                    (s as usize + 1) * 512,
                );
                Some(DiskOp::Write { lba: lba + s, data: copy(part) })
            },
            CreatePhase::Done(_) => None,
        }
    }

    /// What came of the creation, once it has ended.
    pub fn result(&self) -> (r: Option<Created>)
        ensures
            r == match self.phase {
                CreatePhase::Done(c) => Some(c),
                _ => None,
            },
    {
        match self.phase {
            CreatePhase::Done(c) => Some(c),
            _ => None,
        }
    }

    /// Goes on to the directory, with the entry set of a file whose data lies
    /// from cluster `first` on.
    fn begin_dir(&mut self, first: u32)
        requires
            old(self).job_wf(),
        ensures
            final(self).wf(),
            final(self).same_job(*old(self)),
            final(self).stage() <= 2,
            forall|d: Disk, look: nat, hops: nat|
                #[trigger] final(self).outcome(d, look, hops) == appended(
                    old(self).vol,
                    d,
                    old(self).vol.root_cluster as int,
                    entry_set(old(self).name.spec_bytes(), old(self).data@.len() as u64, first),
                    hops,
                ),
    {
        reveal_with_fuel(appended, 1);
        reveal(CreateFile::outcome);
        proof {
            vstd::utf8::is_ascii_chars_encode_utf8(self.name@);
        }
        assert(self.data@.len() == self.data.len());
        self.set = build_entry_set(self.name.as_bytes(), self.data.len() as u64, first);
        self.phase = if self.vol.root_cluster < 2 {
            CreatePhase::Done(Err(CreateError::RootRead))
        } else {
            CreatePhase::Dir { cluster: self.vol.root_cluster }
        };
    }

    /// Goes on with the data, whose clusters are marked.
    fn begin_data(&mut self, start: u64)
        requires
            old(self).job_wf(),
            old(self).data@.len() > 0,
            start + 1 <= old(self).vol.cluster_count,
        ensures
            final(self).wf(),
            final(self).same_job(*old(self)),
            final(self).stage() <= 3,
            forall|d: Disk, look: nat, hops: nat|
                #[trigger] final(self).outcome(d, look, hops) == with_clusters(
                    old(self).vol,
                    d,
                    old(self).name.spec_bytes(),
                    old(self).data@,
                    start as int,
                    hops,
                ),
    {
        reveal(CreateFile::outcome);
        self.buf = pad_sector(self.data, 0);
        self.phase = CreatePhase::Data { start, at: 0 };
    }

    /// Goes on once it is known that there is no such file.
    fn begin_new(&mut self)
        requires
            old(self).job_wf(),
        ensures
            final(self).wf(),
            final(self).same_job(*old(self)),
            final(self).stage() <= 5,
            forall|d: Disk, look: nat, hops: nat|
                #[trigger] final(self).outcome(d, look, hops) == created_new(
                    old(self).vol,
                    d,
                    old(self).name.spec_bytes(),
                    old(self).data@,
                    hops,
                ),
    {
        reveal_with_fuel(search, 1);
        reveal(CreateFile::outcome);
        if self.data.len() == 0 {
            self.begin_dir(0);
        } else {
            let count: u64 = self.clusters();
            if self.vol.bitmap_bytes == 0 {
                self.phase = CreatePhase::Done(Err(CreateError::NoSpace));
            } else {
                self.phase = CreatePhase::Search { sector: 0, start: 0, len: 0 };
            }
        }
    }

    /// Takes what came of the access.
    pub fn feed(&mut self, reply: DiskReply)
        requires
            old(self).wf(),
            old(self).op() is Some,
            old(self).op()->0.fits(reply),
        ensures
            final(self).wf(),
            final(self).vol == old(self).vol,
            old(self).look_hop() == 0 && old(self).hop() == 0 ==> final(self).progressed(*old(self)),
            forall|d: Disk, look: nat, hops: nat|
                old(self).op()->0.answered(d, reply) ==> #[trigger] final(self).outcome(
                    old(self).op()->0.after(d),
                    look,
                    hops,
                ) == old(self).outcome(d, look + old(self).look_hop(), hops + old(self).hop()),
    {
        match self.phase {
            CreatePhase::Lookup => self.fed_lookup(reply),
            CreatePhase::Search { sector, start, len } => self.fed_search(sector, start, len, reply),
            CreatePhase::MarkRead { start, bit } => self.fed_mark_read(start, bit, reply),
            CreatePhase::MarkWrite { start, bit } => self.fed_mark_write(start, bit, reply),
            CreatePhase::Data { start, at } => self.fed_data(start, at, reply),
            CreatePhase::Dir { cluster } => self.fed_dir(cluster, reply),
            CreatePhase::DirFat { cluster } => self.fed_dir_fat(cluster, reply),
            CreatePhase::DirWrite { cluster, s, last } => self.fed_dir_write(cluster, s, last, reply),
            CreatePhase::Done(_) => {},
        }
    }

    fn fed_dir_fat(&mut self, cluster: u32, reply: DiskReply)
        requires
            old(self).wf(),
            old(self).phase == (CreatePhase::DirFat { cluster }),
            old(self).op()->0.fits(reply),
        ensures
            final(self).wf(),
            final(self).vol == old(self).vol,
            forall|d: Disk, look: nat, hops: nat|
                old(self).op()->0.answered(d, reply) ==> #[trigger] final(self).outcome(
                    old(self).op()->0.after(d),
                    look,
                    hops,
                ) == old(self).outcome(d, look, hops + 1),
    {
        reveal_with_fuel(appended_after, 2);
        reveal_with_fuel(appended, 2);
        reveal(CreateFile::outcome);
        let next: u32 = fat_entry(&reply, cluster);
        if next < 2 || next == FAT_EOF {
            self.phase = CreatePhase::Done(Err(CreateError::RootFull));
        } else {
            self.phase = CreatePhase::Dir { cluster: next };
        }
    }

    fn fed_dir_write(&mut self, cluster: u32, s: u64, last: u64, reply: DiskReply)
        requires
            old(self).wf(),
            old(self).phase == (CreatePhase::DirWrite { cluster, s, last }),
            old(self).op()->0.fits(reply),
        ensures
            final(self).wf(),
            final(self).vol == old(self).vol,
            final(self).progressed(*old(self)),
            forall|d: Disk, look: nat, hops: nat|
                old(self).op()->0.answered(d, reply) ==> #[trigger] final(self).outcome(
                    old(self).op()->0.after(d),
                    look,
                    hops,
                ) == old(self).outcome(d, look, hops),
    {
        reveal_with_fuel(sectors_written, 2);
        reveal(CreateFile::outcome);
        if let DiskReply::Written = reply {
            if s == last {
                self.phase = CreatePhase::Done(Ok(()));
            } else {
                self.phase = CreatePhase::DirWrite { cluster, s: s + 1, last };
            }
        } else {
            self.phase = CreatePhase::Done(Err(CreateError::DirWrite));
        }
    }

    fn fed_lookup(&mut self, reply: DiskReply)
        requires
            old(self).wf(),
            old(self).phase is Lookup,
            old(self).op()->0.fits(reply),
        ensures
            final(self).wf(),
            final(self).vol == old(self).vol,
            old(self).look_hop() == 0 ==> final(self).progressed(*old(self)),
            forall|d: Disk, look: nat, hops: nat|
                old(self).op()->0.answered(d, reply) ==> #[trigger] final(self).outcome(
                    old(self).op()->0.after(d),
                    look,
                    hops,
                ) == old(self).outcome(d, look + old(self).look_hop(), hops),
    {
        reveal(CreateFile::outcome);
        self.lookup.feed(reply);
        let ghost looked = self.lookup;
        match self.lookup.phase {
            ReadPhase::Found => {
                self.phase = CreatePhase::Done(Err(CreateError::Exists));
                assert(forall|d: Disk, look: nat| #[trigger]
                    looked.outcome(d, look) == Some(Some(looked.data@)));
            },
            ReadPhase::Missing => {
                self.begin_new();
                assert(forall|d: Disk, look: nat| #[trigger]
                    looked.outcome(d, look) == Some(None::<Seq<u8>>));
            },
            _ => {},
        }
        assert forall|d: Disk, look: nat, hops: nat|
            old(self).op()->0.answered(d, reply) implies #[trigger] self.outcome(
            old(self).op()->0.after(d),
            look,
            hops,
        ) == old(self).outcome(d, look + old(self).look_hop(), hops) by {
            assert(old(self).op()->0.after(d) == d);
            assert(looked.outcome(d, look) == old(self).lookup.outcome(
                d,
                look + old(self).look_hop(),
            ));
        }
    }

    fn fed_search(&mut self, sector: u64, start: u64, len: u64, reply: DiskReply)
        requires
            old(self).wf(),
            old(self).phase == (CreatePhase::Search { sector, start, len }),
            old(self).op()->0.fits(reply),
        ensures
            final(self).wf(),
            final(self).vol == old(self).vol,
            final(self).progressed(*old(self)),
            forall|d: Disk, look: nat, hops: nat|
                old(self).op()->0.answered(d, reply) ==> #[trigger] final(self).outcome(
                    old(self).op()->0.after(d),
                    look,
                    hops,
                ) == old(self).outcome(d, look, hops),
    {
        reveal_with_fuel(search, 2);
        reveal(CreateFile::outcome);
        let bytes: Vec<u8> = match reply {
            DiskReply::Data(bytes) => bytes,
            _ => {
                self.phase = CreatePhase::Done(Err(CreateError::NoSpace));
                return;
            },
        };
        let count: u64 = self.clusters();
        match bitmap_alloc(bytes.as_slice(), sector, self.vol.cluster_count, count, start, len) {
            SectorSearch::Found(bit) => {
                self.phase = CreatePhase::MarkRead { start: bit, bit };
            },
            SectorSearch::End => {
                self.phase = CreatePhase::Done(Err(CreateError::NoSpace));
            },
            SectorSearch::Run { start, len } => {
                // The next sector starts before the last byte of the bitmap.
                if sector + 1 < self.vol.bitmap_bytes / 512 + if self.vol.bitmap_bytes % 512 == 0 {
                    0
                } else {
                    1
                } {
                    self.phase = CreatePhase::Search { sector: sector + 1, start, len };
                } else {
                    self.phase = CreatePhase::Done(Err(CreateError::NoSpace));
                }
            },
        }
    }

    fn fed_mark_read(&mut self, start: u64, bit: u64, reply: DiskReply)
        requires
            old(self).wf(),
            old(self).phase == (CreatePhase::MarkRead { start, bit }),
            old(self).op()->0.fits(reply),
        ensures
            final(self).wf(),
            final(self).vol == old(self).vol,
            final(self).progressed(*old(self)),
            forall|d: Disk, look: nat, hops: nat|
                old(self).op()->0.answered(d, reply) ==> #[trigger] final(self).outcome(
                    old(self).op()->0.after(d),
                    look,
                    hops,
                ) == old(self).outcome(d, look, hops),
    {
        reveal_with_fuel(marked, 1);
        reveal(CreateFile::outcome);
        let mut bytes: Vec<u8> = match reply {
            DiskReply::Data(bytes) => bytes,
            _ => {
                self.phase = CreatePhase::Done(Err(CreateError::NoSpace));
                return;
            },
        };
        let ghost read = bytes;
        let end: u64 = start + self.clusters();
        let base: u64 = bit - bit % 4096;
        let to: u64 = if end < base + 4096 { end } else { base + 4096 };
        assert(to == part_end(bit as int, end as int));
        set_bits(&mut bytes, (bit - base) as usize, (to - base) as usize);
        self.buf = bytes;
        self.phase = CreatePhase::MarkWrite { start, bit };
        assert forall|d: Disk, look: nat, hops: nat|
            old(self).op()->0.answered(d, DiskReply::Data(read)) implies #[trigger] self.outcome(
            old(self).op()->0.after(d),
            look,
            hops,
        ) == old(self).outcome(d, look, hops) by {
            let lba = self.vol.bitmap_lba() + bit as int / 4096;
            assert(d.contains_key(lba));
            assert(read@ == disk_read(d, lba, 1)->0);
        }
    }

    fn fed_mark_write(&mut self, start: u64, bit: u64, reply: DiskReply)
        requires
            old(self).wf(),
            old(self).phase == (CreatePhase::MarkWrite { start, bit }),
            old(self).op()->0.fits(reply),
        ensures
            final(self).wf(),
            final(self).vol == old(self).vol,
            final(self).progressed(*old(self)),
            forall|d: Disk, look: nat, hops: nat|
                old(self).op()->0.answered(d, reply) ==> #[trigger] final(self).outcome(
                    old(self).op()->0.after(d),
                    look,
                    hops,
                ) == old(self).outcome(d, look, hops),
    {
        reveal_with_fuel(marked, 1);
        reveal(CreateFile::outcome);
        if let DiskReply::Written = reply {
            let end: u64 = start + self.clusters();
            let base: u64 = bit - bit % 4096;
            let to: u64 = if end < base + 4096 { end } else { base + 4096 };
            assert(to == part_end(bit as int, end as int));
            if to < end {
                self.phase = CreatePhase::MarkRead { start, bit: to };
            } else {
                self.begin_data(start);
            }
        } else {
            self.phase = CreatePhase::Done(Err(CreateError::NoSpace));
        }
    }

    fn fed_data(&mut self, start: u64, at: u64, reply: DiskReply)
        requires
            old(self).wf(),
            old(self).phase == (CreatePhase::Data { start, at }),
            old(self).op()->0.fits(reply),
        ensures
            final(self).wf(),
            final(self).vol == old(self).vol,
            final(self).progressed(*old(self)),
            forall|d: Disk, look: nat, hops: nat|
                old(self).op()->0.answered(d, reply) ==> #[trigger] final(self).outcome(
                    old(self).op()->0.after(d),
                    look,
                    hops,
                ) == old(self).outcome(d, look, hops),
    {
        reveal_with_fuel(data_written, 2);
        reveal(CreateFile::outcome);
        assert(self.data@.len() == self.data.len());
        if let DiskReply::Written = reply {
            if self.data.len() as u64 - at > 512 {
                self.buf = pad_sector(self.data, at as usize + 512);
                self.phase = CreatePhase::Data { start, at: at + 512 };
            } else {
                self.begin_dir((start + 2) as u32);
            }
        } else {
            self.phase = CreatePhase::Done(Err(CreateError::DataWrite));
        }
    }

    fn fed_dir(&mut self, cluster: u32, reply: DiskReply)
        requires
            old(self).wf(),
            old(self).phase == (CreatePhase::Dir { cluster }),
            old(self).op()->0.fits(reply),
        ensures
            final(self).wf(),
            final(self).vol == old(self).vol,
            final(self).progressed(*old(self)),
            forall|d: Disk, look: nat, hops: nat|
                old(self).op()->0.answered(d, reply) ==> #[trigger] final(self).outcome(
                    old(self).op()->0.after(d),
                    look,
                    hops,
                ) == old(self).outcome(d, look, hops),
    {
        reveal_with_fuel(appended, 2);
        reveal_with_fuel(appended_after, 2);
        reveal(CreateFile::outcome);
        let mut bytes: Vec<u8> = match reply {
            DiskReply::Data(bytes) => bytes,
            _ => {
                self.phase = CreatePhase::Done(Err(CreateError::RootRead));
                return;
            },
        };
        assert(bytes@.len() == bytes.len());
        match find_end(bytes.as_slice()) {
            None => {
                self.phase = CreatePhase::DirFat { cluster };
            },
            Some(pos) => {
                let off: usize = pos * 32;
                if self.set.len() > bytes.len() - off {
                    self.phase = CreatePhase::Done(Err(CreateError::NoRoom));
                } else {
                    let last: usize = (off + self.set.len() - 1) / 512;
                    splice(&mut bytes, off, self.set.as_slice());
                    self.buf = bytes;
                    self.phase = CreatePhase::DirWrite {
                        cluster,
                        s: (off / 512) as u64,
                        last: last as u64,
                    };
                }
            },
        }
    }
}

/// A copy of a buffer.
fn copy(s: &[u8]) -> (r: Vec<u8>)
    ensures
        r@ == s@,
{
    let mut v: Vec<u8> = Vec::new();
    v.extend_from_slice(s);
    assert(v@ =~= s@);
    v
}

/// Creates `name` (ASCII, at most 30 characters) in the root directory with
/// `data`, in contiguous clusters. Fails if the file exists or the root
/// directory has no free entry slots in its existing clusters.
pub fn create_file<'a>(volume: &Option<Volume>, name: &'a str, data: &'a [u8]) -> (r: Result<
    CreateFile<'a>,
    CreateError,
>)
    requires
        *volume is Some ==> {
            &&& volume->0.wf()
            &&& volume->0.bitmap_cluster >= 2
            &&& volume->0.cluster_count < u32::MAX
        },
    ensures
        !good_name(name@) ==> r is Err && r->Err_0 == CreateError::BadName,
        good_name(name@) && *volume is None ==> r is Err && r->Err_0 == CreateError::NotMounted,
        good_name(name@) && *volume is Some ==> {
            &&& r is Ok
            &&& r->Ok_0.wf()
            &&& forall|d: Disk, look: nat, hops: nat| #[trigger]
                r->Ok_0.outcome(d, look, hops) == created(
                    volume->0,
                    d,
                    name.spec_bytes(),
                    data@,
                    look,
                    hops,
                )
        },
{
    reveal(CreateFile::outcome);
    let ascii = name.is_ascii();
    proof {
        if ascii {
            vstd::utf8::is_ascii_chars_encode_utf8(name@);
        }
    }
    let len: usize = name.as_bytes().len();
    if !ascii || len == 0 || len > 30 {
        return Err(CreateError::BadName);
    }
    match *volume {
        None => Err(CreateError::NotMounted),
        Some(vol) => {
            let lookup = read_file(&vol, name);
            let ghost looked = lookup;
            let mut r = CreateFile {
                vol,
                name,
                data,
                phase: CreatePhase::Lookup,
                lookup,
                set: Vec::new(),
                buf: Vec::new(),
            };
            if vol.root_cluster < 2 {
                r.begin_new();
                assert(forall|d: Disk, look: nat| #[trigger]
                    looked.outcome(d, look) == Some(None::<Seq<u8>>));
            }
            Ok(r)
        },
    }
}

} // verus!
