//! What mounting, listing and reading give, by the bytes of the disk.

use vstd::prelude::*;
use vstd::arithmetic::power2::pow2;
use vstd::string::StringSliceAdditionalSpecFns;
use vstd::utf8::encode_utf8;
use crate::bytes::le16;
use super::dir::{cluster_parsed, entry_at, entry_parsed, nothing_parsed, FileModel, Parse};
use super::disk::{extent, readable, Disk, Volume};
use super::laws::lemma_first_wanted_prefix;
use super::mount::{
    info_cluster, info_entry, info_scan, is_boot_sector, label_extended, mounted_volume, no_info, volume_of,
    MountError, RootInfo,
};
use super::read::{
    chain_next, data_next, dir_next, file_contents, file_data, find, first_wanted, found_data,
    is_wanted, root_files, scan, without_files,
};
use super::volume_laws::lemma_files_precede;

verus! {

/// A boot sector has the file system's name at byte 3, and ends in 0x55, 0xAA.
pub proof fn law_boot_sector_is_known_by(b: Seq<u8>)
    requires
        b.len() == 512,
    ensures
        is_boot_sector(b) <==> {
            &&& b[3] == 0x45 && b[4] == 0x58 && b[5] == 0x46 && b[6] == 0x41 && b[7] == 0x54
            &&& b[8] == 0x20 && b[9] == 0x20 && b[10] == 0x20
            &&& b[510] == 0x55 && b[511] == 0xAA
        },
{
    let magic = "EXFAT   ".spec_bytes();
    reveal_strlit("EXFAT   ");
    vstd::string::is_ascii_spec_bytes("EXFAT   ");
    assert(magic.len() == 8);
    assert(magic[0] == 0x45 && magic[1] == 0x58 && magic[2] == 0x46 && magic[3] == 0x41);
    assert(magic[4] == 0x54 && magic[5] == 0x20 && magic[6] == 0x20 && magic[7] == 0x20);
    let s = b.subrange(3, 11);
    assert(s[0] == b[3] && s[1] == b[4] && s[2] == b[5] && s[3] == b[6]);
    assert(s[4] == b[7] && s[5] == b[8] && s[6] == b[9] && s[7] == b[10]);
    if is_boot_sector(b) {
        assert(s == magic);
    }
    if b[3] == 0x45 && b[4] == 0x58 && b[5] == 0x46 && b[6] == 0x41 && b[7] == 0x54 && b[8] == 0x20
        && b[9] == 0x20 && b[10] == 0x20 {
        assert(s =~= magic);
    }
}

/// Where the boot sector says what of the volume: the FAT at byte 80, the heap
/// at byte 88, the number of clusters at byte 92, the root directory at byte
/// 96, and at byte 109 how often one sector is doubled to make a cluster.
pub proof fn law_boot_sector_fields(b: Seq<u8>)
    requires
        b.len() == 512,
        b[109] < 32,
    ensures
        ({
            let v = volume_of(b);
            &&& v.fat_lba == b[80] + 0x100 * b[81] + 0x1_0000 * b[82] + 0x100_0000 * b[83]
            &&& v.heap_lba == b[88] + 0x100 * b[89] + 0x1_0000 * b[90] + 0x100_0000 * b[91]
            &&& v.cluster_count == b[92] + 0x100 * b[93] + 0x1_0000 * b[94] + 0x100_0000 * b[95]
            &&& v.root_cluster == b[96] + 0x100 * b[97] + 0x1_0000 * b[98] + 0x100_0000 * b[99]
            &&& v.sectors_per_cluster == pow2(b[109] as nat)
            &&& b[109] == 0 ==> v.sectors_per_cluster == 1
            &&& b[109] == 3 ==> v.sectors_per_cluster == 8
            &&& v.bitmap_cluster == 0
            &&& v.bitmap_bytes == 0
        }),
{
    vstd::arithmetic::power2::lemma2_to64();
    if b[109] < 31 {
        vstd::arithmetic::power2::lemma_pow2_strictly_increases(b[109] as nat, 31);
    }
    assert(pow2(b[109] as nat) <= 0x8000_0000);
}

/// One more at byte 109 means clusters twice as large.
pub proof fn law_cluster_size_doubles(a: Seq<u8>, b: Seq<u8>)
    requires
        a[109] < 31,
        b[109] == a[109] + 1,
    ensures
        volume_of(b).sectors_per_cluster == 2 * volume_of(a).sectors_per_cluster,
{
    vstd::arithmetic::power2::lemma2_to64();
    vstd::arithmetic::power2::lemma_pow2_unfold(b[109] as nat);
    if b[109] < 31 {
        vstd::arithmetic::power2::lemma_pow2_strictly_increases(b[109] as nat, 31);
    }
    assert(pow2(b[109] as nat) <= 0x8000_0000);
}

/// Mounting: a disk whose first sector is unreadable or no boot sector holds
/// no file system; one whose sectors are not of 2 to the 9th bytes is refused;
/// else the volume is the one that the boot sector describes, with the bitmap
/// that its root directory names, and without a bitmap there is none.
pub proof fn law_mount_goes_by_the_boot_sector(d: Disk, hops: nat)
    requires
        super::disk::disk_wf(d),
    ensures
        !d.contains_key(0) || !is_boot_sector(d[0]) ==> mounted_volume(d, hops) == Some(
            Err::<(Volume, Seq<char>), MountError>(MountError::NoFileSystem),
        ),
        d.contains_key(0) && is_boot_sector(d[0]) && d[0][108] != 9 ==> mounted_volume(d, hops) == Some(
            Err::<(Volume, Seq<char>), MountError>(MountError::SectorSize),
        ),
        d.contains_key(0) && is_boot_sector(d[0]) && d[0][108] == 9 ==> {
            let v = volume_of(d[0]);
            match (mounted_volume(d, hops), info_scan(v, d, v.root_cluster as int, no_info(), hops)) {
                (None, info) => info is None,
                (Some(Err(e)), info) => e == MountError::NoBitmap && info is Some && info->0.bitmap_cluster
                    < 2,
                (Some(Ok((m, label))), info) => {
                    &&& info is Some
                    &&& m.bitmap_cluster >= 2
                    &&& m.bitmap_cluster == info->0.bitmap_cluster
                    &&& m.bitmap_bytes == info->0.bitmap_bytes
                    &&& label == info->0.label
                    &&& m.fat_lba == v.fat_lba
                    &&& m.heap_lba == v.heap_lba
                    &&& m.cluster_count == v.cluster_count
                    &&& m.root_cluster == v.root_cluster
                    &&& m.sectors_per_cluster == v.sectors_per_cluster
                },
            }
        },
{
    super::laws::lemma_sector_read(d, 0);
}

/// What the root directory says of the volume: an entry of type 0x81 names the
/// bitmap, its first cluster at byte 20 and its length at byte 24; one of type
/// 0x83 holds the label; type 0 ends the directory; all others are passed
/// over.
pub proof fn law_root_entries(p: RootInfo, e: Seq<u8>)
    requires
        !p.ended,
        e.len() == 32,
    ensures
        ({
            let q = info_entry(p, e);
            &&& q.ended == (e[0] == 0)
            &&& e[0] == 0x81 ==> {
                &&& q.bitmap_cluster == e[20] + 0x100 * e[21] + 0x1_0000 * e[22] + 0x100_0000 * e[23]
                &&& q.bitmap_bytes == e[24] + 0x100 * e[25] + 0x1_0000 * e[26] + 0x100_0000 * e[27]
                    + 0x1_0000_0000 * e[28] + 0x100_0000_0000 * e[29] + 0x1_0000_0000_0000 * e[30]
                    + 0x100_0000_0000_0000 * e[31]
            }
            &&& e[0] != 0x81 ==> q.bitmap_cluster == p.bitmap_cluster && q.bitmap_bytes
                == p.bitmap_bytes
            &&& e[0] != 0x83 ==> q.label == p.label
        }),
{
}

/// A label entry holds as many characters as byte 1 says, at most 11; one that
/// is not ASCII is a question mark.
pub proof fn law_label_entry(p: RootInfo, e: Seq<u8>, i: int)
    requires
        !p.ended,
        e.len() == 32,
        e[0] == 0x83,
        p.label.len() == 0,
        0 <= i < e[1],
        i < 11,
    ensures
        ({
            let label = info_entry(p, e).label;
            let unit = e[2 + 2 * i] + 0x100 * e[3 + 2 * i];
            &&& label.len() == if e[1] < 11 {
                e[1] as int
            } else {
                11
            }
            &&& label[i] as int == if unit < 0x80 {
                unit
            } else {
                0x3F
            }
        }),
{
    let n = super::mount::label_count(e);
    lemma_label(p.label, e, 0, n, i);
}

proof fn lemma_label(label: Seq<char>, e: Seq<u8>, from: int, n: int, i: int)
    requires
        0 <= from <= n,
        label.len() + (n - from) <= 24,
    ensures
        ({
            let r = label_extended(label, e, from, n);
            &&& r.len() == label.len() + (n - from)
            &&& label.is_prefix_of(r)
            &&& from <= i < n ==> r[label.len() + i - from] as int == if le16(e, 2 + 2 * i) < 0x80 {
                le16(e, 2 + 2 * i)
            } else {
                0x3F
            }
        }),
    decreases n - from,
{
    if from < n {
        let c = super::dir::ascii_or_mark(le16(e, 2 + 2 * from));
        let more = label.push(c);
        lemma_label(more, e, from + 1, n, i);
        let r = label_extended(more, e, from + 1, n);
        assert forall|k: int| 0 <= k < label.len() implies label[k] == r[k] by {
            assert(more[k] == label[k]);
        }
        assert(r[label.len() as int] == more[label.len() as int]);
    }
}

/// The root directory is read along its chain: where a cluster does not end
/// it, the cluster that the FAT names is read next.
pub proof fn law_mount_follows_the_chain(v: Volume, d: Disk, cluster: int, p: RootInfo, hops: nat)
    requires
        cluster >= 2,
        v.cluster(d, cluster) is Some,
    ensures
        ({
            let q = info_cluster(p, v.cluster(d, cluster)->0, 0);
            let word = v.fat_entry(d, cluster);
            &&& q.ended ==> info_scan(v, d, cluster, p, hops) == Some(q)
            &&& !q.ended && hops > 0 && 2 <= word < 0xFFFF_FFFF ==> info_scan(v, d, cluster, p, hops)
                == info_scan(v, d, word, q, (hops - 1) as nat)
            &&& !q.ended && hops > 0 && (word < 2 || word == 0xFFFF_FFFF) ==> info_scan(
                v,
                d,
                cluster,
                p,
                hops,
            ) == Some(q)
        }),
{
}

/// Where a chain goes: to the cluster that the FAT entry names; entries below
/// 2 and the end marker end it. In a directory so does a number that no
/// cluster has.
pub proof fn law_chains_end(v: Volume, d: Disk, cluster: int)
    ensures
        ({
            let word = v.fat_entry(d, cluster);
            &&& word < 2 || word == 0xFFFF_FFFF ==> chain_next(v, d, cluster) is None && dir_next(
                v,
                d,
                cluster,
            ) is None
            &&& 2 <= word < 0xFFFF_FFFF ==> chain_next(v, d, cluster) == Some(word)
            &&& 2 <= word < 0xFFFF_FFFF && word < v.cluster_count + 2 ==> dir_next(v, d, cluster)
                == Some(word)
            &&& word >= v.cluster_count + 2 ==> dir_next(v, d, cluster) is None
        }),
{
}

/// Cluster `b` comes after cluster `a` in a file.
pub open spec fn linked(v: Volume, d: Disk, a: int, b: int, contiguous: bool) -> bool {
    if contiguous {
        a < u32::MAX && b == a + 1
    } else {
        2 <= b < 0xFFFF_FFFF && v.fat_entry(d, a) == b
    }
}

/// Every sector of cluster `c` can be read.
pub open spec fn at_hand(v: Volume, d: Disk, c: int) -> bool {
    readable(d, v.heap_lba + (c - 2) * v.sectors_per_cluster, v.sectors_per_cluster as int)
}

/// A file is what its clusters hold: of the clusters `cs`, each linked to the
/// next, byte `o` of the `j`th is byte `o` of the file after `j` whole
/// clusters, up to the length of the file.
pub proof fn law_file_is_its_clusters(
    v: Volume,
    d: Disk,
    cs: Seq<int>,
    len: int,
    contiguous: bool,
    j: int,
    o: int,
)
    requires
        v.wf(),
        cs.len() > 0,
        512 * v.sectors_per_cluster * (cs.len() - 1) < len <= 512 * v.sectors_per_cluster * cs.len(),
        forall|k: int| 0 <= k < cs.len() ==> at_hand(v, d, #[trigger] cs[k]),
        forall|k: int|
            0 <= k < cs.len() - 1 ==> linked(v, d, #[trigger] cs[k], cs[k + 1], contiguous),
        0 <= j < cs.len(),
        0 <= o < 512 * v.sectors_per_cluster,
        512 * v.sectors_per_cluster * j + o < len,
    ensures
        ({
            let data = file_data(v, d, cs[0], len, contiguous);
            &&& data is Some
            &&& data->0.len() == len
            &&& data->0[512 * v.sectors_per_cluster * j + o] == d[v.heap_lba + (cs[j] - 2)
                * v.sectors_per_cluster + o / 512][o % 512]
        }),
    decreases cs.len(),
{
    let s = v.sectors_per_cluster as int;
    let size = 512 * s;
    assert(v.spec_cluster_bytes() == size);
    assert(at_hand(v, d, cs[0]));
    let lba = v.heap_lba + (cs[0] - 2) * s;
    let bytes = extent(d, lba, s);
    assert(v.cluster(d, cs[0]) == Some(bytes));
    assert(size * 0 == 0 && size * 1 == size) by (nonlinear_arith);
    if cs.len() == 1 {
        assert(j == 0);
    } else {
        let n = cs.len() as int;
        assert(size * (n - 1) >= size) by (nonlinear_arith)
            requires
                n >= 2,
                size >= 0,
        ;
        assert(linked(v, d, cs[0], cs[1], contiguous));
        assert(data_next(v, d, cs[0], contiguous) == Some(cs[1]));
        let rest = cs.drop_first();
        assert(rest[0] == cs[1]);
        assert(size * (n - 2) == size * (n - 1) - size) by (nonlinear_arith);
        assert(size * (n - 1) == size * n - size) by (nonlinear_arith);
        assert forall|k: int| 0 <= k < rest.len() implies at_hand(v, d, #[trigger] rest[k]) by {
            assert(at_hand(v, d, cs[k + 1]));
        }
        assert forall|k: int| 0 <= k < rest.len() - 1 implies linked(
            v,
            d,
            #[trigger] rest[k],
            rest[k + 1],
            contiguous,
        ) by {
            assert(linked(v, d, cs[k + 1], cs[k + 2], contiguous));
        }
        if j == 0 {
            law_file_is_its_clusters(v, d, rest, len - size, contiguous, 0, 0);
        } else {
            assert(size * (j - 1) == size * j - size) by (nonlinear_arith);
            assert(size * (j - 1) >= 0) by (nonlinear_arith)
                requires
                    j >= 1,
                    size >= 0,
            ;
            law_file_is_its_clusters(v, d, rest, len - size, contiguous, j - 1, o);
            assert(rest[j - 1] == cs[j]);
        }
    }
}

/// A file whose chain ends before its length, or whose clusters cannot be
/// read, is not read.
pub proof fn law_broken_file_is_missing(v: Volume, d: Disk, cluster: int, len: int)
    requires
        v.wf(),
        len > 0,
    ensures
        !at_hand(v, d, cluster) ==> file_data(v, d, cluster, len, false) is None && file_data(
            v,
            d,
            cluster,
            len,
            true,
        ) is None,
        len > 512 * v.sectors_per_cluster && (v.fat_entry(d, cluster) < 2 || v.fat_entry(d, cluster)
            == 0xFFFF_FFFF) ==> file_data(v, d, cluster, len, false) is None,
{
}

/// What is read of a file that was found: nothing of an empty one, none of one
/// that has no cluster, and else its data along the FAT, or in one piece where
/// its entry says so.
pub proof fn law_found_file_is_read(v: Volume, d: Disk, f: FileModel)
    ensures
        found_data(v, d, None) is None,
        f.data_length == 0 ==> found_data(v, d, Some(f)) == Some(Seq::<u8>::empty()),
        f.data_length > 0 && f.first_cluster < 2 ==> found_data(v, d, Some(f)) is None,
        f.data_length > 0 && f.first_cluster >= 2 ==> found_data(v, d, Some(f)) == file_data(
            v,
            d,
            f.first_cluster as int,
            f.data_length as int,
            f.no_fat_chain,
        ),
{
}

/// The entries of a directory are read one after the other: those of two parts
/// are those of the first, then those of the second, and a part of 32 bytes is
/// one entry.
pub proof fn law_entries_are_read_in_order(p: Parse, a: Seq<u8>, b: Seq<u8>)
    requires
        a.len() % 32 == 0,
    ensures
        cluster_parsed(p, a + b, 0) == cluster_parsed(cluster_parsed(p, a, 0), b, 0),
        a.len() == 32 ==> cluster_parsed(p, a, 0) == entry_parsed(p, a),
{
    lemma_parse_parts(p, a, b, 0);
    if a.len() == 32 {
        assert(entry_at(a, 0) =~= a);
        reveal_with_fuel(cluster_parsed, 2);
    }
}

proof fn lemma_parse_parts(p: Parse, a: Seq<u8>, b: Seq<u8>, i: int)
    requires
        a.len() % 32 == 0,
        0 <= i,
        32 * i <= a.len(),
    ensures
        cluster_parsed(p, a + b, i) == cluster_parsed(cluster_parsed(p, a, i), b, 0),
    decreases a.len() - 32 * i,
{
    if 32 * i < a.len() {
        assert(entry_at(a + b, i) =~= entry_at(a, i));
        lemma_parse_parts(entry_parsed(p, entry_at(a, i)), a, b, i + 1);
    } else {
        lemma_parse_shifted(p, a, b, 0);
    }
}

proof fn lemma_parse_shifted(p: Parse, a: Seq<u8>, b: Seq<u8>, i: int)
    requires
        a.len() % 32 == 0,
        0 <= i,
    ensures
        cluster_parsed(p, a + b, a.len() as int / 32 + i) == cluster_parsed(p, b, i),
    decreases b.len() - 32 * i,
{
    let n = a.len() as int / 32;
    if 32 * (i + 1) <= b.len() {
        assert(entry_at(a + b, n + i) =~= entry_at(b, i));
        lemma_parse_shifted(entry_parsed(p, entry_at(b, i)), a, b, i + 1);
    }
}

/// A directory is listed along its chain: where a cluster does not end it, the
/// cluster that the FAT names is read next.
pub proof fn law_listing_follows_the_chain(v: Volume, d: Disk, cluster: int, p: Parse, hops: nat)
    requires
        cluster >= 2,
        v.cluster(d, cluster) is Some,
    ensures
        ({
            let q = cluster_parsed(p, v.cluster(d, cluster)->0, 0);
            let word = v.fat_entry(d, cluster);
            &&& q.ended ==> scan(v, d, cluster, p, hops) == Some(q)
            &&& !q.ended && hops > 0 && 2 <= word < 0xFFFF_FFFF && word < v.cluster_count + 2 ==> scan(
                v,
                d,
                cluster,
                p,
                hops,
            ) == scan(v, d, word, q, (hops - 1) as nat)
            &&& !q.ended && hops > 0 && (word < 2 || word >= v.cluster_count + 2) ==> scan(
                v,
                d,
                cluster,
                p,
                hops,
            ) == Some(q)
        }),
{
}

/// The listing begins at the root directory, with nothing found.
pub proof fn law_listing_begins_at_the_root(v: Volume, d: Disk, hops: nat)
    ensures
        root_files(v, d, hops) == match scan(
            v,
            d,
            v.root_cluster as int,
            Parse { current: None, names_left: 0, files: Seq::empty(), ended: false },
            hops,
        ) {
            None => None::<Seq<FileModel>>,
            Some(p) => Some(p.files),
        },
{
}

/// A file is wanted if it has the name, in any case of letters, and is no
/// directory.
pub proof fn law_directories_are_not_read(f: FileModel, name: Seq<u8>)
    ensures
        is_wanted(f, name) <==> super::dir::same_name(encode_utf8(f.name), name) && f.attributes / 16 % 2
            == 0,
{
    let a = f.attributes;
    assert((a & 0x10 == 0) == (a / 16 % 2 == 0)) by (bit_vector);
}

/// The file that is found is the first that is wanted.
pub proof fn law_first_of_a_name_is_found(files: Seq<FileModel>, name: Seq<u8>)
    ensures
        match first_wanted(files, name) {
            Some(f) => exists|i: int|
                0 <= i < files.len() && files[i] == f && is_wanted(#[trigger] files[i], name)
                    && forall|k: int| 0 <= k < i ==> !is_wanted(#[trigger] files[k], name),
            None => forall|k: int| 0 <= k < files.len() ==> !is_wanted(#[trigger] files[k], name),
        },
    decreases files.len(),
{
    if files.len() > 0 && !is_wanted(files[0], name) {
        let rest = files.drop_first();
        law_first_of_a_name_is_found(rest, name);
        if let Some(f) = first_wanted(rest, name) {
            let i = choose|i: int|
                0 <= i < rest.len() && rest[i] == f && is_wanted(#[trigger] rest[i], name) && forall|k: int|
                    0 <= k < i ==> !is_wanted(#[trigger] rest[k], name);
            assert(files[i + 1] == f && is_wanted(files[i + 1], name));
            assert forall|k: int| 0 <= k < i + 1 implies !is_wanted(#[trigger] files[k], name) by {
                if k > 0 {
                    assert(!is_wanted(rest[k - 1], name));
                }
            }
        } else {
            assert forall|k: int| 0 <= k < files.len() implies !is_wanted(#[trigger] files[k], name) by {
                if k > 0 {
                    assert(!is_wanted(rest[k - 1], name));
                }
            }
        }
    } else if files.len() > 0 {
        assert(is_wanted(files[0], name));
    }
}

/// Reading finds what listing shows: the contents of the first listed file of
/// the name, or none where none is listed.
pub proof fn law_reading_finds_what_is_listed(v: Volume, d: Disk, name: Seq<u8>, hops: nat)
    requires
        root_files(v, d, hops) is Some,
    ensures
        file_contents(v, d, name, hops) == Some(
            found_data(v, d, first_wanted(root_files(v, d, hops)->0, name)),
        ),
{
    lemma_find_is_first(v, d, name, v.root_cluster as int, nothing_parsed(), hops);
    let q = scan(v, d, v.root_cluster as int, nothing_parsed(), hops)->0;
    assert(nothing_parsed().files + q.files.skip(0) =~= q.files);
    assert(q.files.skip(0) =~= q.files);
}

proof fn lemma_find_is_first(v: Volume, d: Disk, name: Seq<u8>, cluster: int, p: Parse, hops: nat)
    requires
        scan(v, d, cluster, p, hops) is Some,
    ensures
        ({
            let q = scan(v, d, cluster, p, hops)->0;
            &&& p.files.is_prefix_of(q.files)
            &&& find(v, d, name, cluster, p, hops) == Some(
                first_wanted(q.files.skip(p.files.len() as int), name),
            )
        }),
    decreases hops,
{
    let n = p.files.len() as int;
    let q = scan(v, d, cluster, p, hops)->0;
    if cluster < 2 || v.cluster(d, cluster) is None {
        assert(q.files.skip(n) =~= Seq::empty());
    } else {
        let bytes = v.cluster(d, cluster)->0;
        let here = cluster_parsed(without_files(p), bytes, 0);
        let all = cluster_parsed(p, bytes, 0);
        lemma_files_precede(p, bytes, 0);
        assert(all.files == p.files + here.files);
        assert(all.files.skip(n) =~= here.files);
        if !all.ended && hops > 0 && dir_next(v, d, cluster) is Some {
            let next = dir_next(v, d, cluster)->0;
            lemma_find_is_first(v, d, name, next, all, (hops - 1) as nat);
            let m = all.files.len() as int;
            lemma_find_forgets(v, d, name, next, here, all, (hops - 1) as nat);
            let later = q.files.skip(m);
            assert(q.files.skip(n) =~= here.files + later);
            if first_wanted(here.files, name) is Some {
                assert(here.files.is_prefix_of(here.files + later));
                lemma_first_wanted_prefix(here.files, here.files + later, name);
            } else {
                lemma_wanted_later(here.files, later, name);
            }
        }
    }
}

/// A search does not look at the files that were found before.
proof fn lemma_find_forgets(
    v: Volume,
    d: Disk,
    name: Seq<u8>,
    cluster: int,
    p: Parse,
    q: Parse,
    hops: nat,
)
    requires
        without_files(p) == without_files(q),
    ensures
        find(v, d, name, cluster, p, hops) == find(v, d, name, cluster, q, hops),
{
}

proof fn lemma_wanted_later(a: Seq<FileModel>, b: Seq<FileModel>, name: Seq<u8>)
    requires
        first_wanted(a, name) is None,
    ensures
        first_wanted(a + b, name) == first_wanted(b, name),
    decreases a.len(),
{
    if a.len() > 0 {
        assert((a + b).drop_first() =~= a.drop_first() + b);
        lemma_wanted_later(a.drop_first(), b, name);
    } else {
        assert(a + b =~= b);
    }
}

/// The root directory is read entry by entry: one entry more in the cluster is read after all the
/// others, and an empty cluster says nothing.
pub proof fn law_root_is_read_in_order(p: RootInfo, bytes: Seq<u8>, e: Seq<u8>, i: int)
    requires
        bytes.len() % 32 == 0,
        e.len() == 32,
        0 <= i,
        32 * i <= bytes.len(),
    ensures
        bytes.len() == 0 ==> info_cluster(p, bytes, i) == p,
        info_cluster(p, bytes + e, i) == info_entry(info_cluster(p, bytes, i), e),
    decreases bytes.len() - 32 * i,
{
    let more = bytes + e;
    assert(info_cluster(p, more, i) == info_cluster(info_entry(p, entry_at(more, i)), more, i + 1));
    if 32 * i == bytes.len() {
        assert(entry_at(more, i) =~= e);
        assert(info_cluster(p, bytes, i) == p);
        let q = info_entry(p, e);
        assert(info_cluster(q, more, i + 1) == q);
    } else {
        assert(entry_at(more, i) =~= entry_at(bytes, i));
        law_root_is_read_in_order(info_entry(p, entry_at(bytes, i)), bytes, e, i + 1);
    }
}

/// A file in one piece goes on in the cluster after, as far as there are numbers for clusters; any
/// other goes on where the chain leads.
pub proof fn law_next_data_cluster(v: Volume, d: Disk, cluster: int)
    ensures
        cluster < 0xFFFF_FFFF ==> data_next(v, d, cluster, true) == Some(cluster + 1),
        cluster >= 0xFFFF_FFFF ==> data_next(v, d, cluster, true) is None,
        data_next(v, d, cluster, false) == chain_next(v, d, cluster),
{
}

} // verus!
