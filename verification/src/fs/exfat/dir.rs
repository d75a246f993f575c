//! Directory entries.

use vstd::prelude::*;
use vstd::string::StringSliceAdditionalSpecFns;
use vstd::utf8::{is_ascii_chars, is_ascii_chars_encode_utf8};
use crate::bytes::{le16, le32, le64, read_le16, read_le32, read_le64};
use crate::inline::{text64, text64_new, text64_push, text64_str};

verus! {

/// Bytes of a directory entry.
pub const DIR_ENTRY: usize = 32;

/// End of directory.
pub const ET_END: u8 = 0x00;

/// Allocation bitmap.
pub const ET_BITMAP: u8 = 0x81;

/// Volume label.
pub const ET_LABEL: u8 = 0x83;

/// File.
pub const ET_FILE: u8 = 0x85;

/// Stream extension.
pub const ET_STREAM: u8 = 0xC0;

/// File name.
pub const ET_NAME: u8 = 0xC1;

/// Stream flag: clusters may be allocated.
pub const FLAG_ALLOC_POSSIBLE: u8 = 0x01;

/// Stream flag: the clusters are contiguous and the FAT is not consulted.
pub const FLAG_NO_FAT_CHAIN: u8 = 0x02;

/// Attribute of a directory.
pub const ATTR_DIRECTORY: u16 = 0x10;

/// Characters of a name that are kept.
pub const NAME_KEPT: usize = 63;

/// A file entry set of a directory.
pub struct DirFile {
    pub name: heapless::String<64>,
    pub attributes: u16,
    pub first_cluster: u32,
    pub data_length: u64,
    pub no_fat_chain: bool,
}

/// What a file entry set says.
#[verifier::ext_equal]
pub struct FileModel {
    pub name: Seq<char>,
    pub attributes: u16,
    pub first_cluster: u32,
    pub data_length: u64,
    pub no_fat_chain: bool,
}

impl View for DirFile {
    type V = FileModel;

    open spec fn view(&self) -> FileModel {
        FileModel {
            name: text64(self.name),
            attributes: self.attributes,
            first_cluster: self.first_cluster,
            data_length: self.data_length,
            no_fat_chain: self.no_fat_chain,
        }
    }
}

impl FileModel {
    /// Names are ASCII and of limited length.
    pub open spec fn wf(self) -> bool {
        is_ascii_chars(self.name) && self.name.len() <= NAME_KEPT
    }
}

/// How far the entries of a directory have been read: the entry set in
/// progress, the number of its name entries still to come, the complete file
/// entry sets in order, and whether the end marker was met.
#[verifier::ext_equal]
pub struct Parse {
    pub current: Option<FileModel>,
    pub names_left: int,
    pub files: Seq<FileModel>,
    pub ended: bool,
}

/// Nothing read yet.
pub open spec fn nothing_parsed() -> Parse {
    Parse { current: None, names_left: 0, files: Seq::empty(), ended: false }
}

/// The character for a UTF-16 unit: itself where it is ASCII.
pub open spec fn ascii_or_mark(c: int) -> char {
    if c < 0x80 {
        c as u8 as char
    } else {
        '?'
    }
}

/// `name` with the characters of name entry `e` from the `i`th on: zero units
/// are left out, and so is what exceeds the length kept.
pub open spec fn name_extended(name: Seq<char>, e: Seq<u8>, i: int) -> Seq<char>
    decreases 15 - i,
{
    if i < 0 || i >= 15 {
        name
    } else {
        let c = le16(e, 2 + 2 * i);
        let more = if c != 0 && name.len() < NAME_KEPT { name.push(ascii_or_mark(c)) } else { name };
        name_extended(more, e, i + 1)
    }
}

/// The directory read one entry further.
pub open spec fn entry_parsed(p: Parse, e: Seq<u8>) -> Parse {
    if p.ended {
        p
    } else if e[0] == ET_END {
        Parse { ended: true, ..p }
    } else if e[0] == ET_FILE {
        Parse {
            current: Some(
                FileModel {
                    name: Seq::empty(),
                    attributes: le16(e, 4) as u16,
                    first_cluster: 0,
                    data_length: 0,
                    no_fat_chain: false,
                },
            ),
            names_left: 0,
            ..p
        }
    } else if e[0] == ET_STREAM && p.current is Some {
        Parse {
            current: Some(
                FileModel {
                    no_fat_chain: e[1] & FLAG_NO_FAT_CHAIN != 0,
                    first_cluster: le32(e, 20) as u32,
                    data_length: le64(e, 24) as u64,
                    ..p.current->0
                },
            ),
            names_left: (e[3] + 14) / 15,
            ..p
        }
    } else if e[0] == ET_NAME && p.current is Some {
        let f = FileModel { name: name_extended(p.current->0.name, e, 0), ..p.current->0 };
        if p.names_left == 1 {
            Parse { current: None, names_left: 0, files: p.files.push(f), ..p }
        } else if p.names_left > 1 {
            Parse { current: Some(f), names_left: p.names_left - 1, ..p }
        } else {
            Parse { current: Some(f), ..p }
        }
    } else {
        p
    }
}

/// Entry `i` of a cluster of a directory.
pub open spec fn entry_at(bytes: Seq<u8>, i: int) -> Seq<u8> {
    bytes.subrange(i * DIR_ENTRY, (i + 1) * DIR_ENTRY)
}

/// The directory read on from entry `i` to the end of the cluster.
pub open spec fn cluster_parsed(p: Parse, bytes: Seq<u8>, i: int) -> Parse
    decreases bytes.len() - i * DIR_ENTRY,
{
    if i < 0 || (i + 1) * DIR_ENTRY > bytes.len() {
        p
    } else {
        cluster_parsed(entry_parsed(p, entry_at(bytes, i)), bytes, i + 1)
    }
}

/// An ASCII letter in upper case, any other byte itself.
pub open spec fn upper(b: u8) -> u8 {
    if 0x61 <= b <= 0x7A {
        (b - 0x20) as u8
    } else {
        b
    }
}

/// An ASCII letter in upper case, any other byte itself.
pub fn to_upper(b: u8) -> (r: u8)
    ensures
        r == upper(b),
{
    if 0x61 <= b && b <= 0x7A {
        b - 0x20
    } else {
        b
    }
}

/// Two names are the same up to the case of ASCII letters.
pub open spec fn same_name(a: Seq<u8>, b: Seq<u8>) -> bool {
    &&& a.len() == b.len()
    &&& forall|i: int| 0 <= i < a.len() ==> upper(#[trigger] a[i]) == upper(b[i])
}

/// Whether two names are the same up to the case of ASCII letters.
pub fn names_equal_ascii(a: &str, b: &str) -> (r: bool)
    ensures
        r == same_name(a.spec_bytes(), b.spec_bytes()),
{
    let x = a.as_bytes();
    let y = b.as_bytes();
    if x.len() != y.len() {
        return false;
    }
    let mut i: usize = 0;
    while i < x.len()
        invariant
            i <= x@.len(),
            x@ == a.spec_bytes(),
            y@ == b.spec_bytes(),
            x@.len() == y@.len(),
            forall|j: int| 0 <= j < i ==> upper(#[trigger] x@[j]) == upper(y@[j]),
        decreases x@.len() - i,
    {
        if to_upper(x[i]) != to_upper(y[i]) {
            assert(upper(x@[i as int]) != upper(y@[i as int]));
            return false;
        }
        i += 1;
    }
    true
}

/// The views of a list of file entry sets.
pub open spec fn models(files: Seq<DirFile>) -> Seq<FileModel> {
    files.map_values(|f: DirFile| f@)
}

/// Reads directory entries, over cluster boundaries.
pub struct DirParser {
    pub current: Option<DirFile>,
    pub names_left: u8,
}

impl DirParser {
    /// How far the directory has been read, with the given files found.
    pub open spec fn parse(self, files: Seq<DirFile>, ended: bool) -> Parse {
        Parse {
            current: match self.current {
                Some(f) => Some(f@),
                None => None,
            },
            names_left: self.names_left as int,
            files: models(files),
            ended,
        }
    }

    pub open spec fn wf(self) -> bool {
        self.current is Some ==> self.current->0@.wf()
    }

    /// A parser at the start of a directory.
    pub fn new() -> (r: Self)
        ensures
            r.wf(),
            r.parse(Seq::empty(), false) == nothing_parsed(),
    {
        DirParser { current: None, names_left: 0 }
    }

    /// Reads the entries of a cluster, adding complete file entry sets to
    /// `files`. `true` at the end of the directory.
    pub fn scan_dir(&mut self, bytes: &[u8], files: &mut Vec<DirFile>) -> (ended: bool)
        requires
            old(self).wf(),
        ensures
            final(self).wf(),
            final(self).parse(final(files)@, ended) == cluster_parsed(
                old(self).parse(old(files)@, false),
                bytes@,
                0,
            ),
            old(files)@.is_prefix_of(final(files)@),
    {
        let ghost all = cluster_parsed(self.parse(files@, false), bytes@, 0);
        let mut i: usize = 0;
        while bytes.len() - i * 32 >= 32
            invariant
                i * 32 <= bytes@.len(),
                self.wf(),
                old(files)@.is_prefix_of(files@),
                all == cluster_parsed(old(self).parse(old(files)@, false), bytes@, 0),
                all == cluster_parsed(self.parse(files@, false), bytes@, i as int),
            decreases bytes@.len() - i * 32,
        {
            let e = vstd::slice::slice_subrange(bytes, i * 32, i * 32 + 32);
            assert(e@ == entry_at(bytes@, i as int));
            let ended = self.read_entry(e, files);
            if ended {
                proof {
                    lemma_ended_stays(self.parse(files@, true), bytes@, i as int + 1);
                }
                return true;
            }
            i += 1;
        }
        false
    }

    /// Reads one entry. `true` at the end of the directory.
    fn read_entry(&mut self, e: &[u8], files: &mut Vec<DirFile>) -> (ended: bool)
        requires
            old(self).wf(),
            e@.len() == DIR_ENTRY,
        ensures
            final(self).wf(),
            final(self).parse(final(files)@, ended) == entry_parsed(
                old(self).parse(old(files)@, false),
                e@,
            ),
            old(files)@.is_prefix_of(final(files)@),
    {
        let kind: u8 = e[0];
        if kind == ET_END {
            return true;
        }
        if kind == ET_FILE {
            self.current = Some(
                DirFile {
                    name: text64_new(),
                    attributes: read_le16(e, 4),
                    first_cluster: 0,
                    data_length: 0,
                    no_fat_chain: false,
                },
            );
            self.names_left = 0;
            return false;
        }
        if kind == ET_STREAM {
            if let Some(mut f) = self.current.take() {
                f.no_fat_chain = e[1] & FLAG_NO_FAT_CHAIN != 0;
                f.first_cluster = read_le32(e, 20);
                f.data_length = read_le64(e, 24);
                self.names_left = ((e[3] as u16 + 14) / 15) as u8;
                self.current = Some(f);
            }
            return false;
        }
        if kind == ET_NAME {
            if let Some(mut f) = self.current.take() {
                extend_name(&mut f, e);
                if self.names_left == 1 {
                    self.names_left = 0;
                    let ghost before = models(files@);
                    files.push(f);
                    assert(models(files@) =~= before.push(f@));
                } else {
                    if self.names_left > 0 {
                        self.names_left = self.names_left - 1;
                    }
                    self.current = Some(f);
                }
            }
        }
        false
    }
}

/// Appends the characters of a name entry.
fn extend_name(f: &mut DirFile, e: &[u8])
    requires
        old(f)@.wf(),
        e@.len() == DIR_ENTRY,
    ensures
        final(f)@.wf(),
        final(f)@ == (FileModel { name: name_extended(old(f)@.name, e@, 0), ..old(f)@ }),
{
    let mut i: usize = 0;
    while i < 15
        invariant
            i <= 15,
            e@.len() == DIR_ENTRY,
            f@.wf(),
            f@ == (FileModel { name: f@.name, ..old(f)@ }),
            name_extended(old(f)@.name, e@, 0) == name_extended(f@.name, e@, i as int),
        decreases 15 - i,
    {
        let c: u16 = read_le16(e, 2 + 2 * i);
        proof {
            is_ascii_chars_encode_utf8(f@.name);
        }
        if c != 0 && text64_str(&f.name).len() < 63 {
            let ascii: char = if c < 0x80 { c as u8 as char } else { '?' };
            proof {
                is_ascii_chars_encode_utf8(seq![ascii]);
            }
            let _ = text64_push(&mut f.name, ascii);
        }
        i += 1;
    }
}

/// Past the end marker nothing is read.
pub proof fn lemma_ended_stays(p: Parse, bytes: Seq<u8>, i: int)
    requires
        p.ended,
    ensures
        cluster_parsed(p, bytes, i) == p,
    decreases bytes.len() - i * DIR_ENTRY,
{
    if 0 <= i && (i + 1) * DIR_ENTRY <= bytes.len() {
        lemma_ended_stays(p, bytes, i + 1);
    }
}

} // verus!
