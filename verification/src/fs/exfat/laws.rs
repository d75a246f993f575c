//! What a file holds after it was created.

use vstd::prelude::*;
use vstd::utf8::{encode_utf8, is_ascii_chars, is_ascii_chars_encode_utf8};
use crate::bytes::{le16, le32, le32_bytes, le64, le64_bytes, spliced};
use super::create::{
    appended, appended_after, bit_is_set, bits_set, clusters_for, created, data_written, end_entry,
    marked, padded_sector, part_end, search, search_sector, sectors_written, CreateError, Search,
    SECTOR_BITS,
};
use super::dir::{
    ascii_or_mark, cluster_parsed, entry_at, entry_parsed, lemma_ended_stays, name_extended,
    nothing_parsed, same_name, upper, FileModel, Parse, DIR_ENTRY, ET_END, ET_FILE, ET_STREAM,
    FLAG_NO_FAT_CHAIN,
};
use super::disk::{disk_read, disk_wf, extent, readable, Disk, Volume, SECTOR};
use super::entry_set::{entry_set, file_entry, name_entries, name_entry, name_part, stream_entry};
use super::read::{
    chain_next, data_next, dir_next, file_contents, file_data, find, find_after, first_wanted,
    is_wanted, without_files,
};

verus! {

/// Bit `k` of the allocation bitmap is set.
pub open spec fn bit_at(v: Volume, d: Disk, k: int) -> bool {
    bit_is_set(d[v.bitmap_lba() + k / 4096], k % 4096)
}

/// The bitmap says that cluster `c` is in use.
pub open spec fn allocated(v: Volume, d: Disk, c: int) -> bool {
    bit_at(v, d, c - 2)
}

/// Sector `lba` belongs to cluster `c`.
pub open spec fn in_cluster(v: Volume, lba: int, c: int) -> bool {
    v.spec_cluster_lba(c) <= lba < v.spec_cluster_lba(c) + v.sectors_per_cluster
}

/// Sector `lba` belongs to the allocation bitmap.
pub open spec fn in_bitmap(v: Volume, lba: int) -> bool {
    v.bitmap_lba() <= lba < v.bitmap_lba() + v.bitmap_sectors()
}

/// `c` is a cluster of the volume.
pub open spec fn is_cluster(v: Volume, c: int) -> bool {
    2 <= c <= v.cluster_count + 1
}

/// The volume is consistent: the FAT lies before the heap, the heap is
/// accessible, and the bitmap lies in clusters that it says are in use.
pub open spec fn heap_sound(v: Volume, d: Disk) -> bool {
    &&& v.wf()
    &&& v.bitmap_cluster >= 2
    &&& v.cluster_count < u32::MAX
    &&& disk_wf(d)
    &&& v.fat_sector(v.cluster_count + 1) < v.heap_lba
    &&& readable(d, v.heap_lba as int, v.cluster_count * v.sectors_per_cluster)
    &&& forall|c: int, lba: int|
        is_cluster(v, c) && #[trigger] in_cluster(v, lba, c) && in_bitmap(v, lba) ==> allocated(v, d, c)
}

/// The directory from cluster `cluster` to its end marker, at most `hops`
/// further clusters on, lies in clusters of the volume that are in use and do
/// not hold the bitmap.
pub open spec fn dir_sound(v: Volume, d: Disk, cluster: int, hops: nat) -> bool
    decreases hops,
{
    &&& is_cluster(v, cluster)
    &&& allocated(v, d, cluster)
    &&& forall|lba: int| #[trigger] in_cluster(v, lba, cluster) ==> !in_bitmap(v, lba)
    &&& hops > 0 && end_entry(v.cluster(d, cluster)->0, 0) is None && chain_next(v, d, cluster) is Some
        ==> dir_sound(v, d, chain_next(v, d, cluster)->0, (hops - 1) as nat)
}

/// Distinct clusters have no sector in common, and every cluster of the
/// volume lies in its heap.
pub proof fn lemma_clusters_apart(v: Volume, c: int, e: int)
    requires
        v.wf(),
        is_cluster(v, c),
        is_cluster(v, e),
    ensures
        c < e ==> v.spec_cluster_lba(c) + v.sectors_per_cluster <= v.spec_cluster_lba(e),
        e < c ==> v.spec_cluster_lba(e) + v.sectors_per_cluster <= v.spec_cluster_lba(c),
        v.heap_lba <= v.spec_cluster_lba(c),
        v.spec_cluster_lba(c) + v.sectors_per_cluster <= v.heap_lba + v.cluster_count
            * v.sectors_per_cluster,
{
    let s = v.sectors_per_cluster as int;
    assert(0 <= (c - 2) * s && (c - 2) * s + s <= v.cluster_count * s) by (nonlinear_arith)
        requires
            2 <= c <= v.cluster_count + 1,
            1 <= s,
    ;
    assert(c < e ==> (c - 2) * s + s <= (e - 2) * s) by (nonlinear_arith)
        requires
            1 <= s,
    ;
    assert(e < c ==> (e - 2) * s + s <= (c - 2) * s) by (nonlinear_arith)
        requires
            1 <= s,
    ;
}

/// Two disks agree on a sector.
pub open spec fn agree(a: Disk, b: Disk, lba: int) -> bool {
    a.contains_key(lba) == b.contains_key(lba) && (a.contains_key(lba) ==> a[lba] == b[lba])
}

/// Disks that agree on the sectors of an extent read the same.
pub proof fn lemma_read_agrees(a: Disk, b: Disk, lba: int, count: int)
    requires
        forall|i: int| lba <= i < lba + count ==> #[trigger] agree(a, b, i),
        count >= 0,
    ensures
        disk_read(a, lba, count) == disk_read(b, lba, count),
{
    if readable(a, lba, count) {
        assert forall|i: int| lba <= i < lba + count implies #[trigger] b.contains_key(i) by {
            assert(agree(a, b, i));
            assert(a.contains_key(i));
        }
        assert forall|i: int| 0 <= i < count * SECTOR implies extent(a, lba, count)[i] == extent(
            b,
            lba,
            count,
        )[i] by {
            assert(agree(a, b, lba + i / 512));
            assert(a.contains_key(lba + i / 512));
        }
        assert(extent(a, lba, count) =~= extent(b, lba, count));
    } else {
        let i = choose|i: int| lba <= i < lba + count && !#[trigger] a.contains_key(i);
        assert(agree(a, b, i));
        assert(!b.contains_key(i));
    }
}

/// Reading one sector gives it.
pub proof fn lemma_sector_read(d: Disk, lba: int)
    requires
        disk_wf(d),
    ensures
        disk_read(d, lba, 1) == if d.contains_key(lba) { Some(d[lba]) } else { None },
{
    if d.contains_key(lba) {
        assert(extent(d, lba, 1) =~= d[lba]);
    } else {
        assert(!readable(d, lba, 1));
    }
}

/// The bits of a run found by `search_sector` are clear and below the limit.
proof fn lemma_sector_search(
    v: Volume,
    d: Disk,
    s: int,
    k: int,
    count: int,
    start: int,
    len: int,
)
    requires
        0 <= s,
        0 <= k <= SECTOR_BITS,
        0 <= len < count,
        len > 0 ==> start + len == s * SECTOR_BITS + k,
        len > 0 ==> 0 <= start,
        forall|i: int| len > 0 && start <= i < start + len ==> !#[trigger] bit_at(v, d, i),
        d.contains_key(v.bitmap_lba() + s),
    ensures
        match search_sector(
            d[v.bitmap_lba() + s],
            s * SECTOR_BITS,
            k,
            v.cluster_count as int,
            count,
            start,
            len,
        ) {
            Search::Found(b) => {
                &&& 0 <= b
                &&& b + count <= v.cluster_count
                &&& b + count <= (s + 1) * SECTOR_BITS
                &&& forall|i: int| b <= i < b + count ==> !#[trigger] bit_at(v, d, i)
            },
            Search::End => true,
            Search::Run { start: s2, len: l2 } => {
                &&& 0 <= l2 < count
                &&& l2 > 0 ==> s2 + l2 == (s + 1) * SECTOR_BITS
                &&& l2 > 0 ==> 0 <= s2
                &&& forall|i: int| l2 > 0 && s2 <= i < s2 + l2 ==> !#[trigger] bit_at(v, d, i)
            },
        },
    decreases SECTOR_BITS - k,
{
    reveal_with_fuel(search_sector, 1);
    let bytes = d[v.bitmap_lba() + s];
    let base = s * SECTOR_BITS;
    if k < SECTOR_BITS && base + k < v.cluster_count {
        assert((base + k) / 4096 == s && (base + k) % 4096 == k);
        if bit_is_set(bytes, k) {
            lemma_sector_search(v, d, s, k + 1, count, start, 0);
        } else {
            let begin = if len == 0 { base + k } else { start };
            assert(!bit_at(v, d, base + k));
            assert forall|i: int| begin <= i < begin + len + 1 implies !#[trigger] bit_at(v, d, i) by {
                if i < base + k {
                    assert(len > 0 && start <= i < start + len);
                } else {
                    assert(i == base + k);
                }
            }
            if len + 1 != count {
                lemma_sector_search(v, d, s, k + 1, count, begin, len + 1);
            }
        }
    }
}

/// The bits of the run that is found are clear, and belong to clusters.
pub proof fn lemma_search(v: Volume, d: Disk, s: int, count: int, start: int, len: int)
    requires
        disk_wf(d),
        0 <= s,
        0 <= len < count,
        len > 0 ==> start + len == s * SECTOR_BITS,
        len > 0 ==> 0 <= start,
        forall|i: int| len > 0 && start <= i < start + len ==> !#[trigger] bit_at(v, d, i),
    ensures
        search(v, d, s, count, start, len) is Some ==> {
            let b = search(v, d, s, count, start, len)->0;
            &&& 0 <= b
            &&& b + count <= v.cluster_count
            &&& b + count <= v.bitmap_sectors() * SECTOR_BITS
            &&& forall|i: int| b <= i < b + count ==> !#[trigger] bit_at(v, d, i)
        },
    decreases v.bitmap_sectors() - s,
{
    reveal_with_fuel(search, 1);
    if s < v.bitmap_sectors() {
        let lba = v.bitmap_lba() + s;
        if let Some(bytes) = disk_read(d, lba, 1) {
            assert(d.contains_key(lba));
            lemma_sector_read(d, lba);
            lemma_sector_search(v, d, s, 0, count, start, len);
            if let Search::Run { start: s2, len: l2 } = search_sector(
                bytes,
                s * SECTOR_BITS,
                0,
                v.cluster_count as int,
                count,
                start,
                len,
            ) {
                lemma_search(v, d, s + 1, count, s2, l2);
            }
        }
    }
}

/// Setting bits changes no length.
pub proof fn lemma_bits_set_len(bytes: Seq<u8>, from: int, to: int)
    requires
        0 <= from,
        to <= 8 * bytes.len(),
    ensures
        bits_set(bytes, from, to).len() == bytes.len(),
    decreases to - from,
{
    reveal_with_fuel(bits_set, 1);
    if from < to {
        lemma_bits_set_len(
            bytes.update(from / 8, bytes[from / 8] | (1u8 << ((from % 8) as u8))),
            from + 1,
            to,
        );
    }
}

/// Marking bits changes only the sectors of the bitmap that hold them.
pub proof fn lemma_marked(v: Volume, d: Disk, bit: int, end: int)
    requires
        disk_wf(d),
        0 <= bit,
        end <= v.bitmap_sectors() * SECTOR_BITS,
    ensures
        disk_wf(marked(v, d, bit, end).1),
        forall|lba: int| !in_bitmap(v, lba) ==> #[trigger] agree(d, marked(v, d, bit, end).1, lba),
        forall|lba: int| #[trigger]
            marked(v, d, bit, end).1.contains_key(lba) <==> d.contains_key(lba),
    decreases end - bit,
{
    reveal_with_fuel(marked, 1);
    if bit < end {
        let s = bit / SECTOR_BITS as int;
        let lba = v.bitmap_lba() + s;
        lemma_sector_read(d, lba);
        if d.contains_key(lba) {
            let to = part_end(bit, end);
            let base = s * SECTOR_BITS;
            let bytes = d[lba];
            let d1 = d.insert(lba, bits_set(bytes, bit - base, to - base));
            lemma_bits_set_len(bytes, bit - base, to - base);
            lemma_marked(v, d1, to, end);
            assert(in_bitmap(v, lba));
            let m = marked(v, d1, to, end).1;
            assert forall|x: int| !in_bitmap(v, x) implies #[trigger] agree(d, m, x) by {
                assert(agree(d1, m, x));
            }
            assert forall|x: int| #[trigger] m.contains_key(x) <==> d.contains_key(x) by {
                assert(m.contains_key(x) <==> d1.contains_key(x));
            }
        }
    }
}

/// Where the data was written it is there, and nothing else changed.
pub proof fn lemma_data_written(d: Disk, lba: int, data: Seq<u8>, at: int)
    requires
        disk_wf(d),
        0 <= at,
        at % 512 == 0,
        data_written(d, lba, data, at).0,
    ensures
        ({
            let w = data_written(d, lba, data, at).1;
            &&& disk_wf(w)
            &&& forall|t: int| at <= 512 * t < data.len() ==> #[trigger] w[lba + t] == padded_sector(
                data,
                512 * t,
            )
            &&& forall|x: int| x < lba + at / 512 || lba + (data.len() + 511) / 512 <= x
                ==> #[trigger] agree(d, w, x)
            &&& forall|x: int| #[trigger] w.contains_key(x) <==> d.contains_key(x)
        }),
    decreases data.len() - at,
{
    reveal_with_fuel(data_written, 1);
    if at < data.len() {
        let here = lba + at / 512;
        let d1 = d.insert(here, padded_sector(data, at));
        if at + 512 < data.len() {
            lemma_data_written(d1, lba, data, at + 512);
        } else {
            reveal_with_fuel(data_written, 2);
            assert(data_written(d1, lba, data, at + 512) == (true, d1));
        }
        let w = data_written(d, lba, data, at).1;
        assert forall|t: int| at <= 512 * t < data.len() implies #[trigger] w[lba + t] == padded_sector(
            data,
            512 * t,
        ) by {
            if 512 * t == at {
                assert(lba + t == here);
                if at + 512 < data.len() {
                    assert(agree(d1, w, here));
                }
            }
        }
        assert forall|x: int| x < lba + at / 512 || lba + (data.len() + 511) / 512 <= x implies
            #[trigger] agree(d, w, x) by {
            if at + 512 < data.len() {
                assert(agree(d1, w, x));
            }
        }
        assert forall|x: int| #[trigger] w.contains_key(x) <==> d.contains_key(x) by {
            if at + 512 < data.len() {
                assert(w.contains_key(x) <==> d1.contains_key(x));
            }
        }
    }
}

/// The sectors of a cluster that were written hold what was written, and
/// nothing else changed.
pub proof fn lemma_sectors_written(d: Disk, lba: int, bytes: Seq<u8>, s: int, last: int)
    requires
        sectors_written(d, lba, bytes, s, last).0,
    ensures
        ({
            let w = sectors_written(d, lba, bytes, s, last).1;
            &&& forall|t: int| s <= t <= last ==> #[trigger] w[lba + t] == bytes.subrange(
                t * SECTOR,
                (t + 1) * SECTOR,
            )
            &&& forall|x: int| x < lba + s || lba + last < x ==> #[trigger] agree(d, w, x)
            &&& forall|x: int| #[trigger] w.contains_key(x) <==> d.contains_key(x)
        }),
    decreases last + 1 - s,
{
    reveal_with_fuel(sectors_written, 1);
    if s <= last {
        let d1 = d.insert(lba + s, bytes.subrange(s * SECTOR, (s + 1) * SECTOR));
        lemma_sectors_written(d1, lba, bytes, s + 1, last);
        let w = sectors_written(d, lba, bytes, s, last).1;
        assert(w == sectors_written(d1, lba, bytes, s + 1, last).1);
        assert(agree(d1, w, lba + s));
        assert forall|x: int| x < lba + s || lba + last < x implies #[trigger] agree(d, w, x) by {
            assert(agree(d1, w, x));
        }
        assert forall|x: int| #[trigger] w.contains_key(x) <==> d.contains_key(x) by {
            assert(w.contains_key(x) <==> d1.contains_key(x));
        }
    }
}

/// The first `n` entries of a cluster, read after `p`.
pub open spec fn parsed_to(p: Parse, bytes: Seq<u8>, n: int) -> Parse
    decreases n,
{
    if n <= 0 {
        p
    } else {
        entry_parsed(parsed_to(p, bytes, n - 1), entry_at(bytes, n - 1))
    }
}

/// A cluster can be read in two parts.
pub proof fn lemma_parse_in_parts(p: Parse, bytes: Seq<u8>, n: int)
    requires
        0 <= n,
        n * DIR_ENTRY <= bytes.len(),
    ensures
        cluster_parsed(p, bytes, 0) == cluster_parsed(parsed_to(p, bytes, n), bytes, n),
    decreases n,
{
    if n > 0 {
        lemma_parse_in_parts(p, bytes, n - 1);
    }
}

/// Reading the same entries gives the same.
pub proof fn lemma_parse_same(p: Parse, a: Seq<u8>, b: Seq<u8>, n: int)
    requires
        forall|i: int| 0 <= i < n ==> #[trigger] entry_at(a, i) == entry_at(b, i),
    ensures
        parsed_to(p, a, n) == parsed_to(p, b, n),
    decreases n,
{
    if n > 0 {
        lemma_parse_same(p, a, b, n - 1);
        assert(entry_at(a, n - 1) == entry_at(b, n - 1));
    }
}

/// What is found stays found.
pub proof fn lemma_files_grow(p: Parse, bytes: Seq<u8>, i: int)
    ensures
        p.files.is_prefix_of(cluster_parsed(p, bytes, i).files),
    decreases bytes.len() - i * DIR_ENTRY,
{
    if 0 <= i && (i + 1) * DIR_ENTRY <= bytes.len() {
        lemma_files_grow(entry_parsed(p, entry_at(bytes, i)), bytes, i + 1);
    }
}

/// Without an end marker among them, entries do not end a directory.
pub proof fn lemma_no_end(p: Parse, bytes: Seq<u8>, i: int)
    requires
        0 <= i,
        end_entry(bytes, i) is None,
    ensures
        cluster_parsed(p, bytes, i).ended == p.ended,
    decreases bytes.len() - i * DIR_ENTRY,
{
    reveal_with_fuel(end_entry, 1);
    if (i + 1) * DIR_ENTRY <= bytes.len() {
        assert(entry_at(bytes, i)[0] == bytes[i * DIR_ENTRY]);
        lemma_no_end(entry_parsed(p, entry_at(bytes, i)), bytes, i + 1);
    }
}

/// No entry before the first end marker ends a directory.
pub proof fn lemma_before_end(p: Parse, bytes: Seq<u8>, i: int, n: int)
    requires
        !p.ended,
        0 <= i <= n,
        end_entry(bytes, i) == Some(n),
    ensures
        (n + 1) * DIR_ENTRY <= bytes.len(),
        bytes[n * DIR_ENTRY] == ET_END,
        forall|k: int| i <= k < n ==> bytes[#[trigger] (k * DIR_ENTRY)] != ET_END,
    decreases n - i,
{
    reveal_with_fuel(end_entry, 1);
    if i < n {
        lemma_before_end(p, bytes, i + 1, n);
    } else if bytes[n * DIR_ENTRY] != ET_END {
        lemma_end_after(bytes, n + 1);
    }
}

/// The end marker that is found lies at or after the start of the search.
pub proof fn lemma_end_after(bytes: Seq<u8>, i: int)
    requires
        0 <= i,
        end_entry(bytes, i) is Some,
    ensures
        i <= end_entry(bytes, i)->0,
    decreases bytes.len() - i * DIR_ENTRY,
{
    reveal_with_fuel(end_entry, 1);
    if bytes[i * DIR_ENTRY] != ET_END {
        lemma_end_after(bytes, i + 1);
    }
}

/// Reading entries of which none is an end marker does not end a directory.
pub proof fn lemma_parsed_to_goes_on(p: Parse, bytes: Seq<u8>, n: int)
    requires
        !p.ended,
        n * DIR_ENTRY <= bytes.len(),
        forall|k: int| 0 <= k < n ==> bytes[#[trigger] (k * DIR_ENTRY)] != ET_END,
    ensures
        !parsed_to(p, bytes, n).ended,
    decreases n,
{
    if n > 0 {
        lemma_parsed_to_goes_on(p, bytes, n - 1);
        assert(bytes[(n - 1) * DIR_ENTRY] != ET_END);
        assert(entry_at(bytes, n - 1)[0] == bytes[(n - 1) * DIR_ENTRY]);
    }
}

/// The first wanted file of a longer list is that of a shorter one that has
/// one.
pub proof fn lemma_first_wanted_prefix(a: Seq<FileModel>, b: Seq<FileModel>, name: Seq<u8>)
    requires
        a.is_prefix_of(b),
        first_wanted(a, name) is Some,
    ensures
        first_wanted(b, name) == first_wanted(a, name),
    decreases a.len(),
{
    if !is_wanted(a[0], name) {
        assert(a.drop_first().is_prefix_of(b.drop_first())) by {
            assert(a.drop_first() =~= b.drop_first().subrange(0, a.len() - 1));
        }
        lemma_first_wanted_prefix(a.drop_first(), b.drop_first(), name);
    }
}

/// A wanted file behind files that are not is the first one.
proof fn lemma_first_wanted_push(a: Seq<FileModel>, f: FileModel, name: Seq<u8>)
    requires
        first_wanted(a, name) is None,
        is_wanted(f, name),
    ensures
        first_wanted(a.push(f), name) == Some(f),
    decreases a.len(),
{
    if a.len() > 0 {
        assert(a.push(f).drop_first() =~= a.drop_first().push(f));
        lemma_first_wanted_push(a.drop_first(), f, name);
    }
}

/// A set of entries is the file `f`: read anywhere in a directory, it adds
/// that file.
pub open spec fn set_is_file(set: Seq<u8>, f: FileModel) -> bool {
    &&& set.len() % 32 == 0
    &&& forall|q: Parse|
        !q.ended ==> #[trigger] cluster_parsed(q, set, 0) == (Parse {
            current: None,
            names_left: 0,
            files: q.files.push(f),
            ended: false,
        })
}

/// Reading a set inside a cluster is reading the set.
pub proof fn lemma_parse_set_inside(q: Parse, bytes: Seq<u8>, pos: int, set: Seq<u8>, i: int)
    requires
        0 <= pos,
        0 <= i,
        i * 32 <= set.len(),
        set.len() % 32 == 0,
        pos * 32 + set.len() <= bytes.len(),
        bytes.subrange(pos * 32, pos * 32 + set.len()) == set,
    ensures
        cluster_parsed(q, bytes, pos + i) == cluster_parsed(
            cluster_parsed(q, set, i),
            bytes,
            pos + set.len() / 32,
        ),
    decreases set.len() - i * 32,
{
    if (i + 1) * 32 <= set.len() {
        assert(entry_at(bytes, pos + i) =~= entry_at(set, i)) by {
            assert forall|k: int| 0 <= k < 32 implies entry_at(bytes, pos + i)[k] == entry_at(set, i)[k] by {
                assert(bytes.subrange(pos * 32, pos * 32 + set.len())[i * 32 + k] == bytes[(pos + i)
                    * 32 + k]);
            }
        }
        lemma_parse_set_inside(entry_parsed(q, entry_at(set, i)), bytes, pos, set, i + 1);
    }
}

/// Where a set is written at the end marker of a cluster that holds no wanted
/// file, its file is the first wanted one.
proof fn lemma_set_is_found(
    p: Parse,
    bytes: Seq<u8>,
    pos: int,
    set: Seq<u8>,
    f: FileModel,
    name: Seq<u8>,
)
    requires
        !p.ended,
        end_entry(bytes, 0) == Some(pos),
        set_is_file(set, f),
        is_wanted(f, name),
        pos * 32 + set.len() <= bytes.len(),
        first_wanted(cluster_parsed(p, bytes, 0).files, name) is None,
    ensures
        first_wanted(cluster_parsed(p, spliced(bytes, pos * 32, set), 0).files, name) == Some(f),
{
    let new = spliced(bytes, pos * 32, set);
    lemma_end_after(bytes, 0);
    lemma_before_end(p, bytes, 0, pos);
    lemma_parsed_to_goes_on(p, bytes, pos);
    lemma_parse_in_parts(p, bytes, pos);
    lemma_parse_in_parts(p, new, pos);
    assert forall|i: int| 0 <= i < pos implies #[trigger] entry_at(bytes, i) == entry_at(new, i) by {
        assert(entry_at(bytes, i) =~= entry_at(new, i));
    }
    lemma_parse_same(p, bytes, new, pos);
    let q = parsed_to(p, bytes, pos);
    // Before the set nothing wanted was found.
    assert(entry_at(bytes, pos)[0] == bytes[pos * DIR_ENTRY]);
    lemma_ended_stays(entry_parsed(q, entry_at(bytes, pos)), bytes, pos + 1);
    assert(first_wanted(q.files, name) is None);
    // The set adds its file.
    assert(new.subrange(pos * 32, pos * 32 + set.len()) =~= set);
    lemma_parse_set_inside(q, new, pos, set, 0);
    let r = cluster_parsed(q, set, 0);
    assert(r.files == q.files.push(f));
    lemma_first_wanted_push(q.files, f, name);
    lemma_files_grow(r, new, pos + set.len() as int / 32);
    lemma_first_wanted_prefix(
        r.files,
        cluster_parsed(r, new, pos + set.len() as int / 32).files,
        name,
    );
}

/// Before the heap, or in a cluster in use that does not hold the bitmap: a
/// sector that allocating clusters and writing to them leaves alone.
pub open spec fn kept(v: Volume, d: Disk, lba: int) -> bool {
    ||| lba < v.heap_lba
    ||| !in_bitmap(v, lba) && exists|c: int|
        is_cluster(v, c) && allocated(v, d, c) && #[trigger] in_cluster(v, lba, c)
}

/// The FAT is kept.
pub proof fn lemma_fat_kept(v: Volume, a: Disk, b: Disk, cluster: int)
    requires
        v.wf(),
        is_cluster(v, cluster),
        v.fat_sector(v.cluster_count + 1) < v.heap_lba,
        forall|lba: int| lba < v.heap_lba ==> #[trigger] agree(a, b, lba),
    ensures
        v.fat_entry(a, cluster) == v.fat_entry(b, cluster),
{
    assert(v.fat_sector(cluster) <= v.fat_sector(v.cluster_count + 1));
    lemma_read_agrees(a, b, v.fat_sector(cluster), 1);
}

/// The set appended to a directory is found in it, as the first wanted file.
/// `d` is the disk before the file was made, `m` the disk with its data, `w`
/// the disk in the end. Returns the cluster that was written.
proof fn lemma_appended_is_found(
    v: Volume,
    d: Disk,
    m: Disk,
    w: Disk,
    cluster: int,
    p: Parse,
    set: Seq<u8>,
    f: FileModel,
    name: Seq<u8>,
    look: nat,
    hops: nat,
) -> (written: int)
    requires
        heap_sound(v, d),
        dir_sound(v, d, cluster, hops),
        forall|lba: int| kept(v, d, lba) ==> #[trigger] agree(d, m, lba),
        appended(v, m, cluster, set, hops) == Some((Ok::<(), CreateError>(()), w)),
        set_is_file(set, f),
        is_wanted(f, name),
        set.len() > 0,
        !p.ended,
        find(v, d, name, cluster, p, look) == Some(None::<FileModel>),
    ensures
        find(v, w, name, cluster, p, hops) == Some(Some(f)),
        is_cluster(v, written),
        allocated(v, d, written),
        end_entry(v.cluster(d, written)->0, 0) is Some,
        forall|lba: int| !in_cluster(v, lba, written) ==> #[trigger] agree(m, w, lba),
        forall|lba: int| #[trigger] w.contains_key(lba) <==> m.contains_key(lba),
    decreases hops,
{
    reveal_with_fuel(appended, 2);
    reveal_with_fuel(appended_after, 2);
    let lba = v.spec_cluster_lba(cluster);
    let spc = v.sectors_per_cluster as int;
    lemma_clusters_apart(v, cluster, cluster);
    // The cluster reads the same before and after the data was written.
    assert forall|x: int| lba <= x < lba + spc implies #[trigger] agree(d, m, x) by {
        assert(in_cluster(v, x, cluster));
        assert(kept(v, d, x));
    }
    lemma_read_agrees(d, m, lba, spc);
    let bytes = v.cluster(m, cluster)->0;
    assert(v.cluster(d, cluster) == Some(bytes));
    let q = cluster_parsed(without_files(p), bytes, 0);
    assert(first_wanted(q.files, name) is None);
    match end_entry(bytes, 0) {
        Some(pos) => {
            let off = pos * DIR_ENTRY;
            let new = spliced(bytes, off, set);
            let first = off / 512;
            let last = (off + set.len() - 1) / 512;
            lemma_end_after(bytes, 0);
            lemma_sectors_written(m, lba, new, first, last);
            assert(v.spec_cluster_bytes() == spc * 512);
            assert(last < spc);
            // The cluster now holds the set.
            assert forall|x: int| lba <= x < lba + spc implies #[trigger] w.contains_key(x) by {
                assert(m.contains_key(x));
            }
            assert forall|i: int| 0 <= i < spc * SECTOR implies extent(w, lba, spc)[i] == new[i] by {
                let t = i / 512;
                if first <= t <= last {
                    assert(w[lba + t] == new.subrange(t * SECTOR, (t + 1) * SECTOR));
                } else {
                    assert(agree(m, w, lba + t));
                    assert(m.contains_key(lba + t));
                    assert(extent(m, lba, spc)[i] == bytes[i]);
                }
            }
            assert(extent(w, lba, spc) =~= new);
            lemma_set_is_found(without_files(p), bytes, pos, set, f, name);
            assert forall|x: int| !in_cluster(v, x, cluster) implies #[trigger] agree(m, w, x) by {
                assert(x < lba + first || lba + last < x);
            }
            cluster
        },
        None => {
            lemma_no_end(without_files(p), bytes, 0);
            // The chain goes on to the same cluster on all three disks.
            assert forall|x: int| x < v.heap_lba implies #[trigger] agree(d, m, x) by {
                assert(kept(v, d, x));
            }
            lemma_fat_kept(v, d, m, cluster);
            let n = chain_next(v, m, cluster)->0;
            let rest = (hops - 1) as nat;
            assert(dir_sound(v, d, n, rest));
            assert(dir_next(v, d, cluster) == Some(n));
            let written = lemma_appended_is_found(
                v,
                d,
                m,
                w,
                n,
                q,
                set,
                f,
                name,
                (look - 1) as nat,
                rest,
            );
            assert(written != cluster);
            lemma_clusters_apart(v, written, cluster);
            assert forall|x: int| x < v.heap_lba implies #[trigger] agree(m, w, x) by {
                lemma_clusters_apart(v, written, written);
                assert(!in_cluster(v, x, written));
            }
            lemma_fat_kept(v, m, w, cluster);
            assert forall|x: int| lba <= x < lba + spc implies #[trigger] agree(m, w, x) by {
                assert(!in_cluster(v, x, written));
            }
            lemma_read_agrees(m, w, lba, spc);
            written
        },
    }
}

/// A cluster that holds a byte of a file is one of those that it takes.
pub proof fn lemma_cluster_index(v: Volume, len: int, j: int)
    requires
        v.wf(),
        j * v.spec_cluster_bytes() < len,
    ensures
        j < clusters_for(v, len),
{
    let cb = v.spec_cluster_bytes();
    let count = clusters_for(v, len);
    vstd::arithmetic::div_mod::lemma_fundamental_div_mod(len + cb - 1, cb);
    assert(j < count) by (nonlinear_arith)
        requires
            j * cb < len,
            len + cb - 1 == cb * count + (len + cb - 1) % cb,
            0 <= (len + cb - 1) % cb < cb,
    ;
}

/// The bytes of a contiguous file that was written to a disk.
proof fn lemma_file_data(v: Volume, w: Disk, first: int, data: Seq<u8>, j: int)
    requires
        v.wf(),
        0 <= j,
        2 <= first,
        first + clusters_for(v, data.len() as int) <= v.cluster_count + 2,
        v.cluster_count < u32::MAX,
        j * v.spec_cluster_bytes() < data.len(),
        readable(w, v.heap_lba as int, v.cluster_count * v.sectors_per_cluster),
        forall|t: int| 0 <= 512 * t < data.len() ==> #[trigger] w[v.spec_cluster_lba(first) + t]
            == padded_sector(data, 512 * t),
    ensures
        file_data(v, w, first + j, data.len() - j * v.spec_cluster_bytes(), true) == Some(
            data.subrange(j * v.spec_cluster_bytes(), data.len() as int),
        ),
    decreases data.len() - j * v.spec_cluster_bytes(),
{
    let cb = v.spec_cluster_bytes();
    let spc = v.sectors_per_cluster as int;
    let c = first + j;
    let base = v.spec_cluster_lba(first);
    let lba = v.spec_cluster_lba(c);
    let count = clusters_for(v, data.len() as int);
    let from = j * cb;
    let remaining = data.len() - from;
    assert(cb == spc * 512);
    // Cluster `j` of the file is one of the volume.
    lemma_cluster_index(v, data.len() as int, j);
    assert(is_cluster(v, c));
    lemma_clusters_apart(v, c, c);
    assert(lba == base + j * spc) by (nonlinear_arith)
        requires
            lba == v.heap_lba + (first + j - 2) * spc,
            base == v.heap_lba + (first - 2) * spc,
    ;
    assert(from == 512 * (j * spc)) by (nonlinear_arith)
        requires
            from == j * (spc * 512),
    ;
    let bytes = extent(w, lba, spc);
    assert(readable(w, lba, spc));
    assert(v.cluster(w, c) == Some(bytes));
    assert forall|i: int| 0 <= i < cb && from + i < data.len() implies bytes[i] == data[from + i] by {
        let t = j * spc + i / 512;
        assert(512 * t <= from + i);
        assert(0 <= j * spc) by (nonlinear_arith)
            requires
                0 <= j,
                1 <= spc,
        ;
        assert(w[base + t] == padded_sector(data, 512 * t));
    }
    if remaining <= cb {
        assert(bytes.take(remaining) =~= data.subrange(from, data.len() as int));
    } else {
        assert((j + 1) * cb == from + cb) by (nonlinear_arith)
            requires
                from == j * cb,
        ;
        lemma_cluster_index(v, data.len() as int, j + 1);
        lemma_file_data(v, w, first, data, j + 1);
        let rest = data.subrange((j + 1) * cb, data.len() as int);
        assert(bytes + rest =~= data.subrange(from, data.len() as int));
        assert(data_next(v, w, c, true) == Some(c + 1));
    }
}

/// The characters of an ASCII name.
pub open spec fn chars_of(name: Seq<u8>) -> Seq<char> {
    Seq::new(name.len(), |i: int| name[i] as char)
}

/// A name that a directory entry can hold: ASCII without NUL, 1 to 30 bytes.
pub open spec fn plain_name(name: Seq<u8>) -> bool {
    1 <= name.len() <= 30 && forall|i: int| 0 <= i < name.len() ==> 0 < #[trigger] name[i] < 0x80
}

/// Reading name entry `k` gives its part of the name.
proof fn lemma_name_entry(name: Seq<u8>, k: int, e: Seq<u8>, i: int)
    requires
        plain_name(name),
        0 <= k < 2,
        0 <= i <= 15,
        e == name_entry(name, k),
    ensures
        ({
            let at = 15 * k + i;
            let here = if at < name.len() { at } else { name.len() as int };
            let end = if 15 * k + 15 < name.len() { 15 * k + 15 } else { name.len() as int };
            name_extended(chars_of(name).take(here), e, i) == chars_of(name).take(end)
        }),
    decreases 15 - i,
{
    let at = 15 * k + i;
    let chars = chars_of(name);
    let here = if at < name.len() { at } else { name.len() as int };
    if i < 15 {
        let c = le16(e, 2 + 2 * i);
        assert((2 + 2 * i - 2) / 2 == i);
        assert(e[2 + 2 * i + 1] == 0);
        if at < name.len() {
            assert(c == name[at]);
            assert(chars.take(here).push(ascii_or_mark(c)) =~= chars.take(here + 1));
        } else {
            assert(c == 0);
        }
        lemma_name_entry(name, k, e, i + 1);
    }
}

/// The file that an entry set describes.
pub open spec fn file_of(name: Seq<u8>, len: u64, first: u32) -> FileModel {
    FileModel {
        name: chars_of(name),
        attributes: 0x20,
        first_cluster: first,
        data_length: len,
        no_fat_chain: len > 0,
    }
}

/// The flags of the stream entry and the archive attribute, bit by bit.
proof fn lemma_flags()
    by (bit_vector)
    ensures
        (1u8 | 2u8) & 2u8 != 0,
        1u8 & 2u8 == 0,
        0x20u16 & 0x10u16 == 0,
{
}

/// The entries of the entry set of a file.
proof fn lemma_set_shape(name: Seq<u8>, len: u64, first: u32)
    requires
        plain_name(name),
    ensures
        ({
            let k = name_entries(name.len() as int);
            let set = entry_set(name, len, first);
            &&& 1 <= k <= 2
            &&& set.len() == (2 + k) * 32
            &&& entry_at(set, 0)[0] == ET_FILE
            &&& le16(entry_at(set, 0), 4) == 0x20
            &&& entry_at(set, 1) == stream_entry(name, len, first)
            &&& entry_at(set, 2) == name_entry(name, 0)
            &&& k == 2 ==> entry_at(set, 3) == name_entry(name, 1)
        }),
{
    reveal(entry_set);
    let k = name_entries(name.len() as int);
    let set = entry_set(name, len, first);
    let fe = file_entry((1 + k) as u8);
    let se = stream_entry(name, len, first);
    assert(fe.len() == 32);
    assert(fe[0] == ET_FILE && fe[4] == 0x20 && fe[5] == 0);
    lemma_stream_entry(name, len, first);
    reveal_with_fuel(name_part, 3);
    assert(name_part(name, 1) =~= name_entry(name, 0));
    assert(name_part(name, 2) =~= name_entry(name, 0) + name_entry(name, 1));
    assert(entry_at(set, 1) =~= se);
    assert(entry_at(set, 2) =~= name_entry(name, 0));
    if k == 2 {
        assert(entry_at(set, 3) =~= name_entry(name, 1));
    }
}

/// Reading the entries of a file adds the file.
proof fn lemma_entries_parse(q: Parse, set: Seq<u8>, name: Seq<u8>, len: u64, first: u32)
    requires
        plain_name(name),
        !q.ended,
        ({
            let k = name_entries(name.len() as int);
            &&& 1 <= k <= 2
            &&& set.len() == (2 + k) * 32
            &&& entry_at(set, 0)[0] == ET_FILE
            &&& le16(entry_at(set, 0), 4) == 0x20
            &&& entry_at(set, 1) == stream_entry(name, len, first)
            &&& entry_at(set, 2) == name_entry(name, 0)
            &&& k == 2 ==> entry_at(set, 3) == name_entry(name, 1)
        }),
    ensures
        cluster_parsed(q, set, 0) == (Parse {
            current: None,
            names_left: 0,
            files: q.files.push(file_of(name, len, first)),
            ended: false,
        }),
{
    let k = name_entries(name.len() as int);
    let f = file_of(name, len, first);
    let chars = chars_of(name);
    lemma_stream_entry(name, len, first);
    assert(chars.take(0) =~= Seq::<char>::empty());
    assert(chars.take(name.len() as int) =~= chars);
    lemma_name_entry(name, 0, name_entry(name, 0), 0);
    lemma_name_entry(name, 1, name_entry(name, 1), 0);
    let q1 = entry_parsed(q, entry_at(set, 0));
    let q2 = entry_parsed(q1, entry_at(set, 1));
    assert(q2.names_left == k);
    let q3 = entry_parsed(q2, entry_at(set, 2));
    assert(cluster_parsed(q, set, 0) == cluster_parsed(q1, set, 1));
    assert(cluster_parsed(q1, set, 1) == cluster_parsed(q2, set, 2));
    assert(cluster_parsed(q2, set, 2) == cluster_parsed(q3, set, 3));
    if k == 2 {
        let q4 = entry_parsed(q3, entry_at(set, 3));
        assert(cluster_parsed(q3, set, 3) == cluster_parsed(q4, set, 4));
        assert(cluster_parsed(q4, set, 4) == q4);
    } else {
        assert(cluster_parsed(q3, set, 3) == q3);
    }
}

/// The entry set of a file, read back, is the file.
pub proof fn lemma_set_is_file(name: Seq<u8>, len: u64, first: u32)
    requires
        plain_name(name),
    ensures
        set_is_file(entry_set(name, len, first), file_of(name, len, first)),
        entry_set(name, len, first).len() == 32 * (2 + name_entries(name.len() as int)),
        entry_set(name, len, first).len() > 0,
{
    let set = entry_set(name, len, first);
    lemma_set_shape(name, len, first);
    assert forall|q: Parse| !q.ended implies #[trigger] cluster_parsed(q, set, 0) == (Parse {
        current: None,
        names_left: 0,
        files: q.files.push(file_of(name, len, first)),
        ended: false,
    }) by {
        lemma_entries_parse(q, set, name, len, first);
    }
}

/// The fields of the stream entry.
proof fn lemma_stream_entry(name: Seq<u8>, len: u64, first: u32)
    requires
        plain_name(name),
    ensures
        ({
            let e = stream_entry(name, len, first);
            &&& e.len() == 32
            &&& e[0] == ET_STREAM
            &&& (e[1] & FLAG_NO_FAT_CHAIN != 0) == (len > 0)
            &&& e[3] == name.len()
            &&& le32(e, 20) == first
            &&& le64(e, 24) == len
        }),
{
    lemma_flags();
    let e = stream_entry(name, len, first);
    let a = le32_bytes(first);
    let b = le64_bytes(len);
    crate::bytes::lemma_le_round_trip(0, first, len);
    assert(e[20] == a[0] && e[21] == a[1] && e[22] == a[2] && e[23] == a[3]);
    assert(e[24] == b[0] && e[25] == b[1] && e[26] == b[2] && e[27] == b[3]);
    assert(e[28] == b[4] && e[29] == b[5] && e[30] == b[6] && e[31] == b[7]);
}

/// The file that an entry set describes answers to its name, in any case of
/// letters, and to no other.
pub proof fn lemma_file_answers(name: Seq<u8>, len: u64, first: u32, other: Seq<u8>)
    requires
        plain_name(name),
    ensures
        is_wanted(file_of(name, len, first), other) == same_name(name, other),
{
    lemma_flags();
    let chars = chars_of(name);
    assert(is_ascii_chars(chars));
    is_ascii_chars_encode_utf8(chars);
    let enc = encode_utf8(chars);
    assert forall|i: int| 0 <= i < enc.len() implies #[trigger] enc[i] == name[i] by {
        assert(chars[i] as u8 == enc[i]);
    }
    assert(enc =~= name);
}

/// Names that are the same up to case are those of the same files.
proof fn lemma_alias_wanted(files: Seq<FileModel>, a: Seq<u8>, b: Seq<u8>)
    requires
        same_name(a, b),
    ensures
        first_wanted(files, a) == first_wanted(files, b),
    decreases files.len(),
{
    if files.len() > 0 {
        let n = encode_utf8(files[0].name);
        assert(same_name(n, a) == same_name(n, b)) by {
            if same_name(n, a) {
                assert forall|i: int| 0 <= i < n.len() implies upper(#[trigger] n[i]) == upper(b[i]) by {
                    assert(upper(a[i]) == upper(b[i]));
                }
            }
            if same_name(n, b) {
                assert forall|i: int| 0 <= i < n.len() implies upper(#[trigger] n[i]) == upper(a[i]) by {
                    assert(upper(a[i]) == upper(b[i]));
                }
            }
        }
        lemma_alias_wanted(files.drop_first(), a, b);
    }
}

/// Names that are the same up to case find the same file of a directory.
proof fn lemma_alias_found(
    v: Volume,
    d: Disk,
    a: Seq<u8>,
    b: Seq<u8>,
    cluster: int,
    p: Parse,
    hops: nat,
)
    requires
        same_name(a, b),
    ensures
        find(v, d, a, cluster, p, hops) == find(v, d, b, cluster, p, hops),
    decreases hops,
{
    reveal_with_fuel(find, 2);
    reveal_with_fuel(find_after, 2);
    if cluster >= 2 && v.cluster(d, cluster) is Some {
        let q = cluster_parsed(without_files(p), v.cluster(d, cluster)->0, 0);
        lemma_alias_wanted(q.files, a, b);
        if hops > 0 {
            if let Some(n) = dir_next(v, d, cluster) {
                lemma_alias_found(v, d, a, b, n, q, (hops - 1) as nat);
            }
        }
    }
}

/// A file that was created reads back: on a consistent volume whose root
/// directory holds no file of that name, reading the file after a successful
/// creation, by its name in any case of letters, gives the data it was
/// created with.
pub proof fn law_created_file_reads_back(
    v: Volume,
    d: Disk,
    name: Seq<u8>,
    data: Seq<u8>,
    look: nat,
    hops: nat,
    w: Disk,
    alias: Seq<u8>,
)
    requires
        heap_sound(v, d),
        dir_sound(v, d, v.root_cluster as int, hops),
        plain_name(name),
        data.len() <= u64::MAX,
        find(v, d, name, v.root_cluster as int, nothing_parsed(), look) == Some(None::<FileModel>),
        created(v, d, name, data, look, hops) == Some((Ok::<(), CreateError>(()), w)),
        same_name(name, alias),
    ensures
        file_contents(v, w, alias, hops) == Some(Some(data)),
{
    lemma_alias_found(v, w, name, alias, v.root_cluster as int, nothing_parsed(), hops);
    let len = data.len() as u64;
    let root = v.root_cluster as int;
    if data.len() == 0 {
        lemma_set_is_file(name, 0, 0);
        lemma_file_answers(name, 0, 0, name);
        assert forall|lba: int| kept(v, d, lba) implies #[trigger] agree(d, d, lba) by {}
        let c = lemma_appended_is_found(
            v,
            d,
            d,
            w,
            root,
            nothing_parsed(),
            entry_set(name, 0, 0),
            file_of(name, 0, 0),
            name,
            look,
            hops,
        );
        assert(data =~= Seq::<u8>::empty());
    } else {
        let count = clusters_for(v, data.len() as int);
        lemma_cluster_index(v, data.len() as int, 0);
        lemma_search(v, d, 0, count, 0, 0);
        let bit = search(v, d, 0, count, 0, 0)->0;
        let first = bit + 2;
        let marks = marked(v, d, bit, bit + count).1;
        lemma_marked(v, d, bit, bit + count);
        let lba = v.spec_cluster_lba(first);
        let m = data_written(marks, lba, data, 0).1;
        lemma_data_written(marks, lba, data, 0);
        // The data lies in the clusters that were found.
        let spc = v.sectors_per_cluster as int;
        let cb = v.spec_cluster_bytes();
        let sectors = (data.len() + 511) / 512;
        assert(sectors <= count * spc) by {
            vstd::arithmetic::div_mod::lemma_fundamental_div_mod(data.len() + cb - 1, cb);
            assert(data.len() <= count * cb) by (nonlinear_arith)
                requires
                    data.len() + cb - 1 == cb * count + (data.len() + cb - 1) % cb,
                    (data.len() + cb - 1) % cb < cb,
            ;
            assert(count * cb == 512 * (count * spc)) by (nonlinear_arith)
                requires
                    cb == spc * 512,
            ;
        }
        // What is kept is neither in the bitmap nor in these clusters.
        assert forall|x: int| kept(v, d, x) implies #[trigger] agree(d, m, x) by {
            lemma_kept_is_apart(v, d, x, bit, count);
            assert(agree(d, marks, x));
            assert(agree(marks, m, x));
        }
        lemma_set_is_file(name, len, first as u32);
        lemma_file_answers(name, len, first as u32, name);
        let written = lemma_appended_is_found(
            v,
            d,
            m,
            w,
            root,
            nothing_parsed(),
            entry_set(name, len, first as u32),
            file_of(name, len, first as u32),
            name,
            look,
            hops,
        );
        // The directory cluster that was written holds none of the data.
        assert forall|t: int| 0 <= 512 * t < data.len() implies #[trigger] w[lba + t] == padded_sector(
            data,
            512 * t,
        ) by {
            lemma_run_is_apart(v, d, written, bit, count, lba + t);
            assert(agree(m, w, lba + t));
            assert(m[lba + t] == padded_sector(data, 512 * t));
            lemma_data_sector_exists(marks, lba, data, 0, t);
        }
        assert forall|x: int| v.heap_lba <= x < v.heap_lba + v.cluster_count * spc implies #[trigger] w.contains_key(x) by {
            assert(d.contains_key(x));
            assert(marks.contains_key(x));
            assert(m.contains_key(x));
        }
        lemma_file_data(v, w, first, data, 0);
        assert(data.subrange(0, data.len() as int) =~= data);
    }
}

/// A sector of a run of free clusters belongs to none that is in use.
pub proof fn lemma_run_is_apart(v: Volume, d: Disk, c: int, bit: int, count: int, x: int)
    requires
        v.wf(),
        is_cluster(v, c),
        allocated(v, d, c),
        0 <= bit,
        bit + count <= v.cluster_count,
        forall|i: int| bit <= i < bit + count ==> !#[trigger] bit_at(v, d, i),
        v.spec_cluster_lba(bit + 2) <= x < v.spec_cluster_lba(bit + 2) + count
            * v.sectors_per_cluster,
    ensures
        !in_cluster(v, x, c),
{
    let s = v.sectors_per_cluster as int;
    let first = bit + 2;
    if in_cluster(v, x, c) {
        assert(first <= c < first + count) by (nonlinear_arith)
            requires
                v.heap_lba + (first - 2) * s <= x < v.heap_lba + (first - 2) * s + count * s,
                v.heap_lba + (c - 2) * s <= x < v.heap_lba + (c - 2) * s + s,
                1 <= s,
        ;
        assert(!bit_at(v, d, c - 2));
    }
}

/// What is kept is neither in the bitmap nor in a run of free clusters.
pub proof fn lemma_kept_is_apart(v: Volume, d: Disk, x: int, bit: int, count: int)
    requires
        heap_sound(v, d),
        kept(v, d, x),
        0 <= bit,
        0 < count,
        bit + count <= v.cluster_count,
        forall|i: int| bit <= i < bit + count ==> !#[trigger] bit_at(v, d, i),
    ensures
        !in_bitmap(v, x),
        x < v.spec_cluster_lba(bit + 2) || v.spec_cluster_lba(bit + 2) + count
            * v.sectors_per_cluster <= x,
{
    lemma_clusters_apart(v, bit + 2, bit + 2);
    let s = v.sectors_per_cluster as int;
    assert(v.bitmap_lba() >= v.heap_lba) by (nonlinear_arith)
        requires
            v.bitmap_lba() == v.heap_lba + (v.bitmap_cluster - 2) * s,
            v.bitmap_cluster >= 2,
            s >= 1,
    ;
    if x >= v.heap_lba {
        let c = choose|c: int|
            is_cluster(v, c) && allocated(v, d, c) && #[trigger] in_cluster(v, x, c);
        if v.spec_cluster_lba(bit + 2) <= x < v.spec_cluster_lba(bit + 2) + count
            * v.sectors_per_cluster {
            lemma_run_is_apart(v, d, c, bit, count, x);
        }
    }
}

/// A sector to which data was written exists.
proof fn lemma_data_sector_exists(d: Disk, lba: int, data: Seq<u8>, at: int, t: int)
    requires
        0 <= at <= 512 * t < data.len(),
        at % 512 == 0,
        data_written(d, lba, data, at).0,
    ensures
        data_written(d, lba, data, at).1.contains_key(lba + t),
    decreases data.len() - at,
{
    reveal_with_fuel(data_written, 1);
    let here = lba + at / 512;
    let d1 = d.insert(here, padded_sector(data, at));
    if 512 * t == at {
        lemma_written_keeps(d1, lba, data, at + 512, lba + t);
    } else {
        lemma_data_sector_exists(d1, lba, data, at + 512, t);
    }
}

/// Writing data takes no sector away.
proof fn lemma_written_keeps(d: Disk, lba: int, data: Seq<u8>, at: int, x: int)
    requires
        d.contains_key(x),
    ensures
        data_written(d, lba, data, at).1.contains_key(x),
    decreases if at < data.len() { data.len() - at } else { 0 },
{
    reveal_with_fuel(data_written, 1);
    if 0 <= at < data.len() && d.contains_key(lba + at / 512) {
        lemma_written_keeps(
            d.insert(lba + at / 512, padded_sector(data, at)),
            lba,
            data,
            at + 512,
            x,
        );
    }
}

} // verus!
