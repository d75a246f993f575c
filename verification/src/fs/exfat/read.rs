//! Listing the root directory and reading files.

use vstd::prelude::*;
use vstd::string::StringSliceAdditionalSpecFns;
use vstd::utf8::encode_utf8;
use crate::inline::text64_str;
use super::dir::{
    cluster_parsed, models, names_equal_ascii, nothing_parsed, same_name, DirFile, DirParser,
    FileModel, Parse, ATTR_DIRECTORY,
};
use super::disk::{
    cluster_read, fat_entry, fat_read, Access, Disk, DiskOp, DiskReply, Volume, FAT_EOF,
};

verus! {

/// The cluster after `cluster` in a directory's chain.
pub open spec fn dir_next(v: Volume, d: Disk, cluster: int) -> Option<int> {
    let n = v.fat_entry(d, cluster);
    if n < 2 || n == FAT_EOF || n > v.cluster_count + 1 {
        None
    } else {
        Some(n)
    }
}

/// The cluster after `cluster` in a file's chain.
pub open spec fn chain_next(v: Volume, d: Disk, cluster: int) -> Option<int> {
    let n = v.fat_entry(d, cluster);
    if n < 2 || n == FAT_EOF {
        None
    } else {
        Some(n)
    }
}

/// A directory read from cluster `cluster` on, after what `p` says of the
/// clusters before; `None` if its chain is longer than `hops` further
/// clusters. An unreadable cluster ends it.
pub open spec fn scan(v: Volume, d: Disk, cluster: int, p: Parse, hops: nat) -> Option<Parse>
    decreases hops, 1int,
{
    if cluster < 2 {
        Some(p)
    } else {
        match v.cluster(d, cluster) {
            None => Some(p),
            Some(bytes) => scan_after(v, d, cluster, cluster_parsed(p, bytes, 0), hops),
        }
    }
}

/// A directory read on after cluster `cluster`.
pub open spec fn scan_after(v: Volume, d: Disk, cluster: int, p: Parse, hops: nat) -> Option<Parse>
    decreases hops, 0int,
{
    if p.ended {
        Some(p)
    } else if hops == 0 {
        None
    } else {
        match dir_next(v, d, cluster) {
            None => Some(p),
            Some(n) => scan(v, d, n, p, (hops - 1) as nat),
        }
    }
}

/// The file is the one that is asked for by name.
pub open spec fn is_wanted(f: FileModel, name: Seq<u8>) -> bool {
    same_name(encode_utf8(f.name), name) && f.attributes & ATTR_DIRECTORY == 0
}

/// The first file of that name.
pub open spec fn first_wanted(files: Seq<FileModel>, name: Seq<u8>) -> Option<FileModel>
    decreases files.len(),
{
    if files.len() == 0 {
        None
    } else if is_wanted(files[0], name) {
        Some(files[0])
    } else {
        first_wanted(files.drop_first(), name)
    }
}

/// `p` with no file found.
pub open spec fn without_files(p: Parse) -> Parse {
    Parse { files: Seq::empty(), ..p }
}

/// The first file of that name in a directory from cluster `cluster` on;
/// the outer `None` if it takes more than `hops` further clusters to tell.
pub open spec fn find(v: Volume, d: Disk, name: Seq<u8>, cluster: int, p: Parse, hops: nat) -> Option<
    Option<FileModel>,
>
    decreases hops, 1int,
{
    if cluster < 2 {
        Some(None)
    } else {
        match v.cluster(d, cluster) {
            None => Some(None),
            Some(bytes) => find_after(
                v,
                d,
                name,
                cluster,
                cluster_parsed(without_files(p), bytes, 0),
                hops,
            ),
        }
    }
}

/// The first file of that name, given what cluster `cluster` held.
pub open spec fn find_after(
    v: Volume,
    d: Disk,
    name: Seq<u8>,
    cluster: int,
    p: Parse,
    hops: nat,
) -> Option<Option<FileModel>>
    decreases hops, 0int,
{
    if first_wanted(p.files, name) is Some {
        Some(first_wanted(p.files, name))
    } else if p.ended {
        Some(None)
    } else if hops == 0 {
        None
    } else {
        match dir_next(v, d, cluster) {
            None => Some(None),
            Some(n) => find(v, d, name, n, p, (hops - 1) as nat),
        }
    }
}

/// The cluster that holds the bytes of a file after those in `cluster`.
pub open spec fn data_next(v: Volume, d: Disk, cluster: int, contiguous: bool) -> Option<int> {
    if contiguous {
        if cluster < u32::MAX {
            Some(cluster + 1)
        } else {
            None
        }
    } else {
        chain_next(v, d, cluster)
    }
}

/// The `remaining` bytes of a file from cluster `cluster` on; `None` where a
/// cluster is unreadable or the chain is too short.
pub open spec fn file_data(v: Volume, d: Disk, cluster: int, remaining: int, contiguous: bool) -> Option<
    Seq<u8>,
>
    decreases remaining,
{
    if remaining <= 0 {
        Some(Seq::empty())
    } else {
        match v.cluster(d, cluster) {
            None => None,
            Some(bytes) => if remaining <= v.spec_cluster_bytes() || v.spec_cluster_bytes() <= 0 {
                Some(bytes.take(remaining))
            } else {
                match data_next(v, d, cluster, contiguous) {
                    None => None,
                    Some(n) => match file_data(
                        v,
                        d,
                        n,
                        remaining - v.spec_cluster_bytes(),
                        contiguous,
                    ) {
                        None => None,
                        Some(rest) => Some(bytes + rest),
                    },
                }
            },
        }
    }
}

/// What reading the file that was found gives.
pub open spec fn found_data(v: Volume, d: Disk, f: Option<FileModel>) -> Option<Seq<u8>> {
    match f {
        None => None,
        Some(f) => if f.data_length == 0 {
            Some(Seq::empty())
        } else if f.first_cluster < 2 {
            None
        } else {
            file_data(v, d, f.first_cluster as int, f.data_length as int, f.no_fat_chain)
        },
    }
}

/// What reading file `name` of the root directory gives; the outer `None` if
/// the directory is longer than `hops` further clusters.
pub open spec fn file_contents(v: Volume, d: Disk, name: Seq<u8>, hops: nat) -> Option<Option<Seq<u8>>> {
    match find(v, d, name, v.root_cluster as int, nothing_parsed(), hops) {
        None => None,
        Some(f) => Some(found_data(v, d, f)),
    }
}

/// `a` followed by what is still to come.
pub open spec fn prefixed(a: Seq<u8>, rest: Option<Seq<u8>>) -> Option<Seq<u8>> {
    match rest {
        None => None,
        Some(r) => Some(a + r),
    }
}

/// Looks for a file by name.
fn find_wanted(files: &Vec<DirFile>, name: &str) -> (r: Option<usize>)
    ensures
        match r {
            Some(i) => i < files@.len() && first_wanted(models(files@), name.spec_bytes()) == Some(
                files@[i as int]@,
            ),
            None => first_wanted(models(files@), name.spec_bytes()) is None,
        },
{
    let mut i: usize = 0;
    assert(files@.subrange(0, files@.len() as int) =~= files@);
    while i < files.len()
        invariant
            i <= files@.len(),
            first_wanted(models(files@), name.spec_bytes()) == first_wanted(
                models(files@.subrange(i as int, files@.len() as int)),
                name.spec_bytes(),
            ),
        decreases files@.len() - i,
    {
        let ghost rest = models(files@.subrange(i as int, files@.len() as int));
        assert(rest[0] == files@[i as int]@);
        assert(rest.drop_first() =~= models(files@.subrange(i as int + 1, files@.len() as int)));
        if names_equal_ascii(text64_str(&files[i].name), name) && files[i].attributes
            & ATTR_DIRECTORY == 0 {
            return Some(i);
        }
        i += 1;
    }
    None
}

/// How far a `ReadFile` has come.
pub enum ReadPhase {
    /// Reading a cluster of the directory.
    Dir { cluster: u32 },
    /// Looking up the directory's next cluster.
    DirFat { cluster: u32 },
    /// Reading a cluster of the file.
    Data { cluster: u32, remaining: u64, contiguous: bool },
    /// Looking up the file's next cluster.
    DataFat { cluster: u32, remaining: u64 },
    /// The file was read.
    Found,
    /// There is no such file, or it cannot be read.
    Missing,
}

/// Reads a whole file from the root directory by name.
pub struct ReadFile<'a> {
    pub vol: Volume,
    pub name: &'a str,
    pub phase: ReadPhase,
    pub parser: DirParser,
    pub data: Vec<u8>,
}

impl<'a> ReadFile<'a> {
    pub open spec fn wf(self) -> bool {
        &&& self.vol.wf()
        &&& self.parser.wf()
        &&& match self.phase {
            ReadPhase::Dir { cluster } => cluster >= 2 && self.data@.len() == 0,
            ReadPhase::DirFat { cluster } => self.data@.len() == 0,
            ReadPhase::Data { cluster, remaining, contiguous } => cluster >= 2 && remaining > 0,
            ReadPhase::DataFat { cluster, remaining } => remaining > 0,
            _ => true,
        }
    }

    /// The disk access that the machine needs next.
    pub open spec fn op(self) -> Option<Access> {
        match self.phase {
            ReadPhase::Dir { cluster } => Some(self.vol.cluster_access(cluster as int)),
            ReadPhase::DirFat { cluster } => Some(self.vol.fat_access(cluster as int)),
            ReadPhase::Data { cluster, .. } => Some(self.vol.cluster_access(cluster as int)),
            ReadPhase::DataFat { cluster, .. } => Some(self.vol.fat_access(cluster as int)),
            _ => None,
        }
    }

    /// Number of clusters of the directory by which the next access moves on.
    pub open spec fn hop(self) -> nat {
        if self.phase is DirFat {
            1
        } else {
            0
        }
    }

    /// Decreases with every access that does not move on in the directory.
    pub open spec fn work(self) -> int {
        match self.phase {
            ReadPhase::Dir { .. } => 2 * u64::MAX + 5,
            ReadPhase::DirFat { .. } => 2 * u64::MAX + 4,
            ReadPhase::Data { remaining, .. } => 2 * remaining + 1,
            ReadPhase::DataFat { remaining, .. } => 2 * remaining + 2,
            _ => 0,
        }
    }

    /// What the machine ends with on disk `d`; the outer `None` if the
    /// directory is longer than `hops` further clusters.
    pub open spec fn outcome(self, d: Disk, hops: nat) -> Option<Option<Seq<u8>>> {
        let name = self.name.spec_bytes();
        let p = self.parser.parse(Seq::empty(), false);
        let v = self.vol;
        match self.phase {
            ReadPhase::Dir { cluster } => match find(v, d, name, cluster as int, p, hops) {
                None => None,
                Some(f) => Some(found_data(v, d, f)),
            },
            ReadPhase::DirFat { cluster } => match find_after(v, d, name, cluster as int, p, hops) {
                None => None,
                Some(f) => Some(found_data(v, d, f)),
            },
            ReadPhase::Data { cluster, remaining, contiguous } => Some(
                prefixed(
                    self.data@,
                    file_data(v, d, cluster as int, remaining as int, contiguous),
                ),
            ),
            ReadPhase::DataFat { cluster, remaining } => Some(
                match chain_next(v, d, cluster as int) {
                    None => None,
                    Some(n) => prefixed(self.data@, file_data(v, d, n, remaining as int, false)),
                },
            ),
            ReadPhase::Found => Some(Some(self.data@)),
            ReadPhase::Missing => Some(None),
        }
    }

    /// The disk access that the machine needs next; `None` once it has ended.
    pub fn next_op(&self) -> (r: Option<DiskOp>)
        requires
            self.wf(),
        ensures
            match r {
                Some(op) => self.op() == Some(op@),
                None => self.op() is None,
            },
    {
        match self.phase {
            ReadPhase::Dir { cluster } => Some(cluster_read(&self.vol, cluster)),
            ReadPhase::DirFat { cluster } => Some(fat_read(&self.vol, cluster)),
            ReadPhase::Data { cluster, remaining, contiguous } => Some(
                cluster_read(&self.vol, cluster),
            ),
            ReadPhase::DataFat { cluster, remaining } => Some(fat_read(&self.vol, cluster)),
            _ => None,
        }
    }

    /// The contents of the file, once it was read.
    pub fn result(&self) -> (r: Option<&Vec<u8>>)
        ensures
            match r {
                Some(data) => self.phase is Found && data@ == self.data@,
                None => !(self.phase is Found),
            },
    {
        match self.phase {
            ReadPhase::Found => Some(&self.data),
            _ => None,
        }
    }

    /// Takes what came of the access.
    #[verifier::rlimit(40)]
    pub fn feed(&mut self, reply: DiskReply)
        requires
            old(self).wf(),
            old(self).op() is Some,
            old(self).op()->0.fits(reply),
        ensures
            final(self).wf(),
            final(self).vol == old(self).vol,
            final(self).name == old(self).name,
            old(self).hop() == 0 ==> 0 <= final(self).work() < old(self).work(),
            forall|d: Disk, hops: nat|
                old(self).op()->0.answered(d, reply) ==> #[trigger] final(self).outcome(d, hops)
                    == old(self).outcome(d, hops + old(self).hop()),
    {
        match self.phase {
            ReadPhase::Dir { cluster } => self.fed_dir(cluster, reply),
            ReadPhase::DirFat { cluster } => {
                let next: u32 = fat_entry(&reply, cluster);
                if next < 2 || next == FAT_EOF || next as u64 > self.vol.cluster_count as u64 + 1 {
                    self.phase = ReadPhase::Missing;
                } else {
                    self.phase = ReadPhase::Dir { cluster: next };
                }
                proof {
                    let p = self.parser.parse(Seq::empty(), false);
                    assert(without_files(p) == p);
                }
            },
            ReadPhase::Data { cluster, remaining, contiguous } => self.fed_data(
                cluster,
                remaining,
                contiguous,
                reply,
            ),
            ReadPhase::DataFat { cluster, remaining } => {
                let next: u32 = fat_entry(&reply, cluster);
                if next < 2 || next == FAT_EOF {
                    self.phase = ReadPhase::Missing;
                } else {
                    self.phase = ReadPhase::Data { cluster: next, remaining, contiguous: false };
                }
            },
            _ => {},
        }
    }

    /// A cluster of the directory was read.
    fn fed_dir(&mut self, cluster: u32, reply: DiskReply)
        requires
            old(self).wf(),
            old(self).phase == (ReadPhase::Dir { cluster }),
            old(self).op()->0.fits(reply),
        ensures
            final(self).wf(),
            final(self).vol == old(self).vol,
            final(self).name == old(self).name,
            0 <= final(self).work() < old(self).work(),
            forall|d: Disk, hops: nat|
                old(self).op()->0.answered(d, reply) ==> #[trigger] final(self).outcome(d, hops)
                    == old(self).outcome(d, hops),
    {
        let bytes: Vec<u8> = match reply {
            DiskReply::Data(bytes) => bytes,
            _ => {
                self.phase = ReadPhase::Missing;
                return;
            },
        };
        let mut files: Vec<DirFile> = Vec::new();
        let ghost p0 = self.parser.parse(Seq::empty(), false);
        let ended = self.parser.scan_dir(bytes.as_slice(), &mut files);
        let ghost q = self.parser.parse(files@, ended);
        let ghost name = self.name.spec_bytes();
        proof {
            assert(without_files(p0) == p0);
            assert(q == cluster_parsed(p0, bytes@, 0));
        }
        if let Some(i) = find_wanted(&files, self.name) {
            let len: u64 = files[i].data_length;
            if len == 0 {
                self.phase = ReadPhase::Found;
            } else if files[i].first_cluster < 2 {
                self.phase = ReadPhase::Missing;
            } else {
                self.phase = ReadPhase::Data {
                    cluster: files[i].first_cluster,
                    remaining: len,
                    contiguous: files[i].no_fat_chain,
                };
            }
            assert(self.data@ =~= Seq::<u8>::empty());
            assert forall|d: Disk, hops: nat|
                old(self).op()->0.answered(d, DiskReply::Data(bytes)) implies #[trigger] self.outcome(
                d,
                hops,
            ) == old(self).outcome(d, hops) by {
                lemma_prefixed_nothing(
                    self.data@,
                    file_data(
                        self.vol,
                        d,
                        files@[i as int].first_cluster as int,
                        len as int,
                        files@[i as int].no_fat_chain,
                    ),
                );
            }
            return;
        }
        if ended {
            self.phase = ReadPhase::Missing;
        } else {
            self.phase = ReadPhase::DirFat { cluster };
            proof {
                let p = self.parser.parse(Seq::empty(), false);
                assert(p =~= without_files(q));
                assert forall|d: Disk, hops: nat| #[trigger]
                    find_after(self.vol, d, name, cluster as int, p, hops) == find_after(
                        self.vol,
                        d,
                        name,
                        cluster as int,
                        q,
                        hops,
                    ) by {
                    lemma_found_files_do_not_matter(self.vol, d, name, cluster as int, q, hops);
                }
            }
        }
    }

    /// A cluster of the file was read.
    fn fed_data(&mut self, cluster: u32, remaining: u64, contiguous: bool, reply: DiskReply)
        requires
            old(self).wf(),
            old(self).phase == (ReadPhase::Data { cluster, remaining, contiguous }),
            old(self).op()->0.fits(reply),
        ensures
            final(self).wf(),
            final(self).vol == old(self).vol,
            final(self).name == old(self).name,
            0 <= final(self).work() < old(self).work(),
            forall|d: Disk, hops: nat|
                old(self).op()->0.answered(d, reply) ==> #[trigger] final(self).outcome(d, hops)
                    == old(self).outcome(d, hops),
    {
        let bytes: Vec<u8> = match reply {
            DiskReply::Data(bytes) => bytes,
            _ => {
                self.phase = ReadPhase::Missing;
                return;
            },
        };
        let cbytes: u64 = self.vol.cluster_bytes();
        let ghost before = self.data@;
        assert(bytes@.len() == bytes.len());
        if remaining <= cbytes {
            let head = vstd::slice::slice_subrange(bytes.as_slice(), 0, remaining as usize);
            self.data.extend_from_slice(head);
            assert(self.data@ =~= before + bytes@.take(remaining as int));
            self.phase = ReadPhase::Found;
            return;
        }
        self.data.extend_from_slice(bytes.as_slice());
        assert(self.data@ =~= before + bytes@);
        let left: u64 = remaining - cbytes;
        if contiguous {
            if cluster == u32::MAX {
                self.phase = ReadPhase::Missing;
            } else {
                self.phase = ReadPhase::Data { cluster: cluster + 1, remaining: left, contiguous };
            }
        } else {
            self.phase = ReadPhase::DataFat { cluster, remaining: left };
        }
        assert forall|d: Disk, hops: nat|
            old(self).op()->0.answered(d, DiskReply::Data(bytes)) implies #[trigger] self.outcome(
            d,
            hops,
        ) == old(self).outcome(d, hops) by {
            let n = data_next(self.vol, d, cluster as int, contiguous);
            if n is Some {
                lemma_prefixed_twice(
                    before,
                    bytes@,
                    file_data(self.vol, d, n->0, left as int, contiguous),
                );
            }
        }
    }
}

proof fn lemma_prefixed_nothing(a: Seq<u8>, r: Option<Seq<u8>>)
    requires
        a.len() == 0,
    ensures
        prefixed(a, r) == r,
{
    if r is Some {
        assert(a + r->0 =~= r->0);
    }
}

proof fn lemma_prefixed_twice(a: Seq<u8>, b: Seq<u8>, r: Option<Seq<u8>>)
    ensures
        prefixed(a + b, r) == prefixed(a, prefixed(b, r)),
{
    if r is Some {
        assert(a + b + r->0 =~= a + (b + r->0));
    }
}

/// Files that are not the wanted one leave no trace in the search.
proof fn lemma_found_files_do_not_matter(
    v: Volume,
    d: Disk,
    name: Seq<u8>,
    cluster: int,
    q: Parse,
    hops: nat,
)
    requires
        first_wanted(q.files, name) is None,
    ensures
        find_after(v, d, name, cluster, without_files(q), hops) == find_after(
            v,
            d,
            name,
            cluster,
            q,
            hops,
        ),
{
    assert(first_wanted(without_files(q).files, name) is None);
    assert(without_files(without_files(q)) == without_files(q));
}

/// Reads a whole file from the root directory by name (ASCII,
/// case-insensitive). Ends without one if it is absent or on an I/O error.
pub fn read_file<'a>(vol: &Volume, name: &'a str) -> (r: ReadFile<'a>)
    requires
        vol.wf(),
    ensures
        r.wf(),
        r.vol == *vol,
        r.name == name,
        r.op() is Some <==> vol.root_cluster >= 2,
        forall|d: Disk, hops: nat|
            #[trigger] r.outcome(d, hops) == file_contents(*vol, d, name.spec_bytes(), hops),
{
    let parser = DirParser::new();
    let phase = if vol.root_cluster < 2 {
        ReadPhase::Missing
    } else {
        ReadPhase::Dir { cluster: vol.root_cluster }
    };
    ReadFile { vol: *vol, name, phase, parser, data: Vec::new() }
}

/// What is told of the root directory.
pub open spec fn root_files(v: Volume, d: Disk, hops: nat) -> Option<Seq<FileModel>> {
    files_of(scan(v, d, v.root_cluster as int, nothing_parsed(), hops))
}

/// The files found.
pub open spec fn files_of(p: Option<Parse>) -> Option<Seq<FileModel>> {
    match p {
        None => None,
        Some(p) => Some(p.files),
    }
}

/// How far a `ListRoot` has come.
pub enum ListPhase {
    /// Reading a cluster of the directory.
    Dir { cluster: u32 },
    /// Looking up the directory's next cluster.
    DirFat { cluster: u32 },
    /// The directory was read.
    Listed,
}

/// Lists the file entry sets of the root directory.
pub struct ListRoot {
    pub vol: Volume,
    pub phase: ListPhase,
    pub parser: DirParser,
    pub files: Vec<DirFile>,
}

impl ListRoot {
    pub open spec fn wf(self) -> bool {
        &&& self.vol.wf()
        &&& self.parser.wf()
        &&& self.phase is Dir ==> self.phase->Dir_cluster >= 2
    }

    /// The disk access that the machine needs next.
    pub open spec fn op(self) -> Option<Access> {
        match self.phase {
            ListPhase::Dir { cluster } => Some(self.vol.cluster_access(cluster as int)),
            ListPhase::DirFat { cluster } => Some(self.vol.fat_access(cluster as int)),
            ListPhase::Listed => None,
        }
    }

    /// Number of clusters of the directory by which the next access moves on.
    pub open spec fn hop(self) -> nat {
        if self.phase is DirFat {
            1
        } else {
            0
        }
    }

    /// Decreases with every access that does not move on in the directory.
    pub open spec fn work(self) -> int {
        match self.phase {
            ListPhase::Dir { .. } => 2,
            ListPhase::DirFat { .. } => 1,
            ListPhase::Listed => 0,
        }
    }

    /// What the machine ends with on disk `d`; `None` if the directory is
    /// longer than `hops` further clusters.
    pub open spec fn outcome(self, d: Disk, hops: nat) -> Option<Seq<FileModel>> {
        let p = self.parser.parse(self.files@, false);
        match self.phase {
            ListPhase::Dir { cluster } => files_of(scan(self.vol, d, cluster as int, p, hops)),
            ListPhase::DirFat { cluster } => files_of(
                scan_after(self.vol, d, cluster as int, p, hops),
            ),
            ListPhase::Listed => Some(models(self.files@)),
        }
    }

    /// The disk access that the machine needs next; `None` once it has ended.
    pub fn next_op(&self) -> (r: Option<DiskOp>)
        requires
            self.wf(),
        ensures
            match r {
                Some(op) => self.op() == Some(op@),
                None => self.op() is None,
            },
    {
        match self.phase {
            ListPhase::Dir { cluster } => Some(cluster_read(&self.vol, cluster)),
            ListPhase::DirFat { cluster } => Some(fat_read(&self.vol, cluster)),
            ListPhase::Listed => None,
        }
    }

    /// Takes what came of the access.
    pub fn feed(&mut self, reply: DiskReply)
        requires
            old(self).wf(),
            old(self).op() is Some,
            old(self).op()->0.fits(reply),
        ensures
            final(self).wf(),
            final(self).vol == old(self).vol,
            old(self).hop() == 0 ==> 0 <= final(self).work() < old(self).work(),
            forall|d: Disk, hops: nat|
                old(self).op()->0.answered(d, reply) ==> #[trigger] final(self).outcome(d, hops)
                    == old(self).outcome(d, hops + old(self).hop()),
    {
        match self.phase {
            ListPhase::Dir { cluster } => match reply {
                DiskReply::Data(bytes) => {
                    let ended = self.parser.scan_dir(bytes.as_slice(), &mut self.files);
                    self.phase = if ended {
                        ListPhase::Listed
                    } else {
                        ListPhase::DirFat { cluster }
                    };
                },
                _ => {
                    self.phase = ListPhase::Listed;
                },
            },
            ListPhase::DirFat { cluster } => {
                let next: u32 = fat_entry(&reply, cluster);
                self.phase = if next < 2 || next == FAT_EOF || next as u64 > self.vol.cluster_count as u64
                    + 1 {
                    ListPhase::Listed
                } else {
                    ListPhase::Dir { cluster: next }
                };
            },
            ListPhase::Listed => {},
        }
    }
}

/// Lists the file entry sets of the root directory.
pub fn list_root(vol: &Volume) -> (r: ListRoot)
    requires
        vol.wf(),
    ensures
        r.wf(),
        r.vol == *vol,
        forall|d: Disk, hops: nat| #[trigger] r.outcome(d, hops) == root_files(*vol, d, hops),
{
    let phase = if vol.root_cluster < 2 {
        ListPhase::Listed
    } else {
        ListPhase::Dir { cluster: vol.root_cluster }
    };
    ListRoot { vol: *vol, phase, parser: DirParser::new(), files: Vec::new() }
}

} // verus!
