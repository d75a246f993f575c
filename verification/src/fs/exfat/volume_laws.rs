//! What the creation of a file does to the rest of the volume: it takes free
//! clusters, marks them, and leaves every other file as it was.

use vstd::prelude::*;
use crate::bytes::spliced;
use super::create::{
    appended, appended_after, appended_here, bit_is_set, bits_set, clusters_for, created,
    created_new, data_written, end_entry, marked, part_end, search, CreateError, SECTOR_BITS,
};
use super::dir::{
    cluster_parsed, entry_at, entry_parsed, lemma_ended_stays, nothing_parsed, same_name, FileModel,
    Parse, DIR_ENTRY, ET_END,
};
use super::disk::{disk_wf, readable, Disk, Volume, SECTOR};
use super::entry_set::{entry_set, name_entries, set_without_checksum};
use super::laws::{
    agree, allocated, bit_at, dir_sound, heap_sound, in_bitmap, in_cluster, is_cluster, kept,
    lemma_before_end, lemma_bits_set_len, lemma_cluster_index, lemma_clusters_apart,
    lemma_data_written, lemma_end_after, lemma_fat_kept, lemma_files_grow,
    lemma_file_answers, lemma_first_wanted_prefix, lemma_kept_is_apart, lemma_marked, lemma_no_end,
    lemma_parse_in_parts, lemma_parse_same, lemma_parse_set_inside, lemma_parsed_to_goes_on,
    lemma_read_agrees, lemma_search, lemma_sector_read, lemma_sectors_written, lemma_set_is_file,
    file_of, parsed_to, plain_name, set_is_file,
};
use super::read::{
    chain_next, data_next, dir_next, file_contents, file_data, find, find_after, first_wanted,
    is_wanted, without_files,
};

verus! {

/// Cluster `c` is one of a directory from cluster `cluster` on, at most
/// `hops` clusters further.
pub open spec fn in_dir(v: Volume, d: Disk, cluster: int, hops: nat, c: int) -> bool
    decreases hops,
{
    ||| c == cluster
    ||| hops > 0 && chain_next(v, d, cluster) is Some && in_dir(
        v,
        d,
        chain_next(v, d, cluster)->0,
        (hops - 1) as nat,
        c,
    )
}

/// The clusters of a file from `cluster` on are clusters of the volume that
/// are in use and hold neither the bitmap nor the root directory.
pub open spec fn file_sound(
    v: Volume,
    d: Disk,
    hops: nat,
    cluster: int,
    remaining: int,
    contiguous: bool,
) -> bool
    decreases remaining,
{
    remaining <= 0 || {
        &&& is_cluster(v, cluster)
        &&& allocated(v, d, cluster)
        &&& forall|lba: int| #[trigger] in_cluster(v, lba, cluster) ==> !in_bitmap(v, lba)
        &&& !in_dir(v, d, v.root_cluster as int, hops, cluster)
        &&& remaining > v.spec_cluster_bytes() && v.spec_cluster_bytes() > 0 && data_next(
            v,
            d,
            cluster,
            contiguous,
        ) is Some ==> file_sound(
            v,
            d,
            hops,
            data_next(v, d, cluster, contiguous)->0,
            remaining - v.spec_cluster_bytes(),
            contiguous,
        )
    }
}

/// Setting one bit of a byte.
proof fn lemma_bit(b: u8, i: u8, j: u8)
    by (bit_vector)
    requires
        i < 8,
        j < 8,
    ensures
        ((b | (1u8 << i)) & (1u8 << j) != 0) == (i == j || b & (1u8 << j) != 0),
{
}

/// Setting bits sets those and no others.
proof fn lemma_bits_set(bytes: Seq<u8>, from: int, to: int, k: int)
    requires
        0 <= from,
        to <= 8 * bytes.len(),
        0 <= k < 8 * bytes.len(),
    ensures
        bit_is_set(bits_set(bytes, from, to), k) == (from <= k < to || bit_is_set(bytes, k)),
    decreases to - from,
{
    reveal_with_fuel(bits_set, 1);
    if from < to {
        let one = bytes.update(from / 8, bytes[from / 8] | (1u8 << ((from % 8) as u8)));
        lemma_bits_set(one, from + 1, to, k);
        lemma_bit(bytes[from / 8], (from % 8) as u8, (k % 8) as u8);
        if k / 8 == from / 8 {
            assert(one[k / 8] == bytes[from / 8] | (1u8 << ((from % 8) as u8)));
        }
    }
}

/// Marking a run in the bitmap sets its bits and no others.
proof fn lemma_marked_bits(v: Volume, d: Disk, bit: int, end: int, k: int)
    requires
        disk_wf(d),
        0 <= bit,
        end <= v.bitmap_sectors() * SECTOR_BITS,
        0 <= k < v.bitmap_sectors() * SECTOR_BITS,
        marked(v, d, bit, end).0,
        d.contains_key(v.bitmap_lba() + k / 4096),
    ensures
        bit_at(v, marked(v, d, bit, end).1, k) == (bit <= k < end || bit_at(v, d, k)),
    decreases end - bit,
{
    reveal_with_fuel(marked, 1);
    if bit < end {
        let s = bit / SECTOR_BITS as int;
        let lba = v.bitmap_lba() + s;
        lemma_sector_read(d, lba);
        let to = part_end(bit, end);
        let base = s * SECTOR_BITS;
        let bytes = d[lba];
        let d1 = d.insert(lba, bits_set(bytes, bit - base, to - base));
        lemma_bits_set_len(bytes, bit - base, to - base);
        lemma_marked_bits(v, d1, to, end, k);
        if k / 4096 == s {
            lemma_bits_set(bytes, bit - base, to - base, k % 4096);
        }
    }
}

/// The cluster to which an entry set was appended: the one of the directory
/// with the end marker, and nothing else was written.
proof fn lemma_written_cluster(
    v: Volume,
    d: Disk,
    m: Disk,
    w: Disk,
    cluster: int,
    set: Seq<u8>,
    hops: nat,
) -> (written: int)
    requires
        heap_sound(v, d),
        dir_sound(v, d, cluster, hops),
        forall|lba: int| kept(v, d, lba) ==> #[trigger] agree(d, m, lba),
        appended(v, m, cluster, set, hops) == Some((Ok::<(), CreateError>(()), w)),
        set.len() > 0,
    ensures
        is_cluster(v, written),
        allocated(v, d, written),
        forall|lba: int| #[trigger] in_cluster(v, lba, written) ==> !in_bitmap(v, lba),
        in_dir(v, d, cluster, hops, written),
        end_entry(v.cluster(d, written)->0, 0) is Some,
        forall|lba: int| !in_cluster(v, lba, written) ==> #[trigger] agree(m, w, lba),
        forall|lba: int| #[trigger] w.contains_key(lba) <==> m.contains_key(lba),
    decreases hops,
{
    reveal_with_fuel(appended, 2);
    reveal_with_fuel(appended_after, 2);
    let lba = v.spec_cluster_lba(cluster);
    let spc = v.sectors_per_cluster as int;
    lemma_clusters_apart(v, cluster, cluster);
    assert forall|x: int| lba <= x < lba + spc implies #[trigger] agree(d, m, x) by {
        assert(in_cluster(v, x, cluster));
        assert(kept(v, d, x));
    }
    lemma_read_agrees(d, m, lba, spc);
    let bytes = v.cluster(m, cluster)->0;
    assert(v.cluster(d, cluster) == Some(bytes));
    match end_entry(bytes, 0) {
        Some(pos) => {
            let off = pos * DIR_ENTRY;
            let first = off / 512;
            let last = (off + set.len() - 1) / 512;
            lemma_end_after(bytes, 0);
            lemma_sectors_written(m, lba, spliced(bytes, off, set), first, last);
            assert(v.spec_cluster_bytes() == spc * 512);
            assert(last < spc);
            assert forall|x: int| !in_cluster(v, x, cluster) implies #[trigger] agree(m, w, x) by {
                assert(x < lba + first || lba + last < x);
            }
            cluster
        },
        None => {
            assert forall|x: int| x < v.heap_lba implies #[trigger] agree(d, m, x) by {
                assert(kept(v, d, x));
            }
            lemma_fat_kept(v, d, m, cluster);
            let n = chain_next(v, m, cluster)->0;
            assert(dir_sound(v, d, n, (hops - 1) as nat));
            lemma_written_cluster(v, d, m, w, n, set, (hops - 1) as nat)
        },
    }
}

/// A file that is found in a directory is found in it after an entry set was
/// appended.
proof fn lemma_found_kept(
    v: Volume,
    d: Disk,
    m: Disk,
    w: Disk,
    cluster: int,
    p: Parse,
    set: Seq<u8>,
    other: Seq<u8>,
    f: FileModel,
    look: nat,
    hops: nat,
)
    requires
        heap_sound(v, d),
        dir_sound(v, d, cluster, hops),
        forall|lba: int| kept(v, d, lba) ==> #[trigger] agree(d, m, lba),
        appended(v, m, cluster, set, hops) == Some((Ok::<(), CreateError>(()), w)),
        set.len() > 0,
        !p.ended,
        find(v, d, other, cluster, p, look) == Some(Some(f)),
    ensures
        find(v, w, other, cluster, p, look) == Some(Some(f)),
    decreases hops,
{
    reveal_with_fuel(appended, 2);
    reveal_with_fuel(appended_after, 2);
    reveal_with_fuel(find, 2);
    reveal_with_fuel(find_after, 2);
    let lba = v.spec_cluster_lba(cluster);
    let spc = v.sectors_per_cluster as int;
    lemma_clusters_apart(v, cluster, cluster);
    assert forall|x: int| lba <= x < lba + spc implies #[trigger] agree(d, m, x) by {
        assert(in_cluster(v, x, cluster));
        assert(kept(v, d, x));
    }
    lemma_read_agrees(d, m, lba, spc);
    let bytes = v.cluster(m, cluster)->0;
    assert(v.cluster(d, cluster) == Some(bytes));
    let p0 = without_files(p);
    let q = cluster_parsed(p0, bytes, 0);
    match end_entry(bytes, 0) {
        Some(pos) => {
            let off = pos * DIR_ENTRY;
            let new = spliced(bytes, off, set);
            lemma_new_cluster(v, m, w, cluster, bytes, pos, set);
            assert(v.cluster(w, cluster) == Some(new));
            lemma_end_after(bytes, 0);
            lemma_before_end(p0, bytes, 0, pos);
            lemma_parse_in_parts(p0, bytes, pos);
            lemma_parse_in_parts(p0, new, pos);
            assert forall|i: int| 0 <= i < pos implies #[trigger] entry_at(bytes, i) == entry_at(
                new,
                i,
            ) by {
                assert(entry_at(bytes, i) =~= entry_at(new, i));
            }
            lemma_parse_same(p0, bytes, new, pos);
            let before = parsed_to(p0, bytes, pos);
            assert(entry_at(bytes, pos)[0] == bytes[pos * DIR_ENTRY]);
            lemma_ended_stays(entry_parsed(before, entry_at(bytes, pos)), bytes, pos + 1);
            assert(q.files == before.files);
            assert(q.ended);
            assert(first_wanted(q.files, other) == Some(f));
            lemma_files_grow(before, new, pos);
            lemma_first_wanted_prefix(before.files, cluster_parsed(p0, new, 0).files, other);
        },
        None => {
            assert forall|x: int| x < v.heap_lba implies #[trigger] agree(d, m, x) by {
                assert(kept(v, d, x));
            }
            lemma_fat_kept(v, d, m, cluster);
            let n = chain_next(v, m, cluster)->0;
            let rest = (hops - 1) as nat;
            assert(dir_sound(v, d, n, rest));
            let written = lemma_written_cluster(v, d, m, w, n, set, rest);
            assert(written != cluster);
            lemma_clusters_apart(v, written, cluster);
            lemma_clusters_apart(v, written, written);
            assert forall|x: int| x < v.heap_lba implies #[trigger] agree(m, w, x) by {
                assert(!in_cluster(v, x, written));
            }
            lemma_fat_kept(v, m, w, cluster);
            assert forall|x: int| lba <= x < lba + spc implies #[trigger] agree(m, w, x) by {
                assert(!in_cluster(v, x, written));
            }
            lemma_read_agrees(m, w, lba, spc);
            if first_wanted(q.files, other) is None {
                lemma_no_end(p0, bytes, 0);
                assert(dir_next(v, d, cluster) == Some(n));
                lemma_found_kept(v, d, m, w, n, q, set, other, f, (look - 1) as nat, rest);
            }
        },
    }
}

/// The cluster with the end marker after an entry set was written over it.
pub proof fn lemma_new_cluster(
    v: Volume,
    m: Disk,
    w: Disk,
    cluster: int,
    bytes: Seq<u8>,
    pos: int,
    set: Seq<u8>,
)
    requires
        v.wf(),
        v.cluster(m, cluster) == Some(bytes),
        end_entry(bytes, 0) == Some(pos),
        appended_here(v, m, cluster, bytes, pos * DIR_ENTRY, set) == (Ok::<(), CreateError>(()), w),
        set.len() > 0,
    ensures
        v.cluster(w, cluster) == Some(spliced(bytes, pos * DIR_ENTRY, set)),
{
    let lba = v.spec_cluster_lba(cluster);
    let spc = v.sectors_per_cluster as int;
    let off = pos * DIR_ENTRY;
    let new = spliced(bytes, off, set);
    let first = off / 512;
    let last = (off + set.len() - 1) / 512;
    lemma_end_after(bytes, 0);
    lemma_sectors_written(m, lba, new, first, last);
    assert(v.spec_cluster_bytes() == spc * 512);
    assert(last < spc);
    assert forall|x: int| lba <= x < lba + spc implies #[trigger] w.contains_key(x) by {
        assert(m.contains_key(x));
    }
    let all = super::disk::extent(w, lba, spc);
    assert forall|i: int| 0 <= i < spc * SECTOR implies all[i] == new[i] by {
        let t = i / 512;
        if first <= t <= last {
            assert(w[lba + t] == new.subrange(t * SECTOR, (t + 1) * SECTOR));
        } else {
            assert(agree(m, w, lba + t));
            assert(m.contains_key(lba + t));
            assert(super::disk::extent(m, lba, spc)[i] == bytes[i]);
        }
    }
    assert(all =~= new);
}

/// The bytes of a file whose clusters were left alone.
proof fn lemma_data_kept(
    v: Volume,
    d: Disk,
    m: Disk,
    w: Disk,
    hops: nat,
    written: int,
    cluster: int,
    remaining: int,
    contiguous: bool,
)
    requires
        heap_sound(v, d),
        forall|lba: int| kept(v, d, lba) ==> #[trigger] agree(d, m, lba),
        forall|lba: int| !in_cluster(v, lba, written) ==> #[trigger] agree(m, w, lba),
        is_cluster(v, written),
        in_dir(v, d, v.root_cluster as int, hops, written),
        file_sound(v, d, hops, cluster, remaining, contiguous),
    ensures
        file_data(v, w, cluster, remaining, contiguous) == file_data(
            v,
            d,
            cluster,
            remaining,
            contiguous,
        ),
    decreases remaining,
{
    if remaining > 0 {
        let lba = v.spec_cluster_lba(cluster);
        let spc = v.sectors_per_cluster as int;
        assert(written != cluster);
        lemma_clusters_apart(v, cluster, written);
        lemma_clusters_apart(v, written, written);
        assert forall|x: int| lba <= x < lba + spc implies #[trigger] agree(d, w, x) by {
            assert(in_cluster(v, x, cluster));
            assert(kept(v, d, x));
            assert(agree(d, m, x));
            assert(agree(m, w, x));
        }
        lemma_read_agrees(d, w, lba, spc);
        assert forall|x: int| x < v.heap_lba implies #[trigger] agree(d, w, x) by {
            assert(kept(v, d, x));
            assert(agree(d, m, x));
            assert(!in_cluster(v, x, written));
            assert(agree(m, w, x));
        }
        lemma_fat_kept(v, d, w, cluster);
        if remaining > v.spec_cluster_bytes() {
            if let Some(n) = data_next(v, d, cluster, contiguous) {
                lemma_data_kept(
                    v,
                    d,
                    m,
                    w,
                    hops,
                    written,
                    n,
                    remaining - v.spec_cluster_bytes(),
                    contiguous,
                );
            }
        }
    }
}

/// An entry set is not empty.
proof fn lemma_set_not_empty(name: Seq<u8>, len: u64, first: u32)
    ensures
        entry_set(name, len, first).len() > 0,
{
    reveal(entry_set);
    reveal(set_without_checksum);
}

/// The stages of a creation: the run of clusters that it takes, the disk with
/// the run marked, and the disk with the data in it.
proof fn lemma_stages(v: Volume, d: Disk, name: Seq<u8>, data: Seq<u8>, hops: nat, w: Disk) -> (r: (
    int,
    Disk,
    Disk,
))
    requires
        heap_sound(v, d),
        0 < data.len() <= u64::MAX,
        created_new(v, d, name, data, hops) == Some((Ok::<(), CreateError>(()), w)),
    ensures
        ({
            let (bit, marks, m) = r;
            let count = clusters_for(v, data.len() as int);
            &&& 0 < count
            &&& 0 <= bit
            &&& bit + count <= v.cluster_count
            &&& bit + count <= v.bitmap_sectors() * SECTOR_BITS
            &&& forall|i: int| bit <= i < bit + count ==> !#[trigger] bit_at(v, d, i)
            &&& marked(v, d, bit, bit + count) == (true, marks)
            &&& disk_wf(marks)
            &&& forall|x: int| kept(v, d, x) ==> #[trigger] agree(d, m, x)
            &&& forall|x: int|
                x < v.spec_cluster_lba(bit + 2) || v.spec_cluster_lba(bit + 2) + count
                    * v.sectors_per_cluster <= x ==> #[trigger] agree(marks, m, x)
            &&& appended(
                v,
                m,
                v.root_cluster as int,
                entry_set(name, data.len() as u64, (bit + 2) as u32),
                hops,
            ) == Some((Ok::<(), CreateError>(()), w))
        }),
{
    let count = clusters_for(v, data.len() as int);
    lemma_cluster_index(v, data.len() as int, 0);
    lemma_search(v, d, 0, count, 0, 0);
    let bit = search(v, d, 0, count, 0, 0)->0;
    let marks = marked(v, d, bit, bit + count).1;
    lemma_marked(v, d, bit, bit + count);
    let lba = v.spec_cluster_lba(bit + 2);
    let m = data_written(marks, lba, data, 0).1;
    lemma_data_written(marks, lba, data, 0);
    let spc = v.sectors_per_cluster as int;
    let cb = v.spec_cluster_bytes();
    assert((data.len() + 511) / 512 <= count * spc) by {
        vstd::arithmetic::div_mod::lemma_fundamental_div_mod(data.len() + cb - 1, cb);
        assert(data.len() <= count * cb) by (nonlinear_arith)
            requires
                data.len() + cb - 1 == cb * count + (data.len() + cb - 1) % cb,
                (data.len() + cb - 1) % cb < cb,
        ;
        assert(count * cb == 512 * (count * spc)) by (nonlinear_arith)
            requires
                cb == spc * 512,
        ;
    }
    assert forall|x: int| x < lba || lba + count * spc <= x implies #[trigger] agree(marks, m, x) by {}
    assert forall|x: int| kept(v, d, x) implies #[trigger] agree(d, m, x) by {
        lemma_kept_is_apart(v, d, x, bit, count);
        assert(agree(d, marks, x));
        assert(agree(marks, m, x));
    }
    (bit, marks, m)
}

/// A successful creation takes clusters that were free, all in a row, marks
/// them in the bitmap, and leaves the marks of all other clusters as they
/// were; for an empty file the bitmap does not change.
pub proof fn law_created_clusters_were_free(
    v: Volume,
    d: Disk,
    name: Seq<u8>,
    data: Seq<u8>,
    hops: nat,
    w: Disk,
)
    requires
        heap_sound(v, d),
        dir_sound(v, d, v.root_cluster as int, hops),
        readable(d, v.bitmap_lba(), v.bitmap_sectors()),
        data.len() <= u64::MAX,
        created_new(v, d, name, data, hops) == Some((Ok::<(), CreateError>(()), w)),
    ensures
        exists|first: int|
            #![trigger is_cluster(v, first)]
            {
                let count = if data.len() == 0 {
                    0
                } else {
                    clusters_for(v, data.len() as int)
                };
                &&& 2 <= first
                &&& first + count <= v.cluster_count + 2
                &&& forall|c: int| first <= c < first + count ==> !#[trigger] allocated(v, d, c)
                &&& forall|c: int|
                    2 <= c < 2 + v.bitmap_sectors() * SECTOR_BITS ==> #[trigger] allocated(v, w, c)
                        == (first <= c < first + count || allocated(v, d, c))
            },
{
    let root = v.root_cluster as int;
    if data.len() == 0 {
        let set = entry_set(name, 0, 0);
        lemma_set_not_empty(name, 0, 0);
        assert forall|lba: int| kept(v, d, lba) implies #[trigger] agree(d, d, lba) by {}
        let written = lemma_written_cluster(v, d, d, w, root, set, hops);
        assert forall|c: int| 2 <= c < 2 + v.bitmap_sectors() * SECTOR_BITS implies
            #[trigger] allocated(v, w, c) == allocated(v, d, c) by {
            let x = v.bitmap_lba() + (c - 2) / 4096;
            assert(in_bitmap(v, x));
            assert(!in_cluster(v, x, written));
            assert(agree(d, w, x));
            assert(d.contains_key(x));
        }
        assert(is_cluster(v, 2) || !is_cluster(v, 2));
    } else {
        let (bit, marks, m) = lemma_stages(v, d, name, data, hops, w);
        let count = clusters_for(v, data.len() as int);
        let first = bit + 2;
        let set = entry_set(name, data.len() as u64, first as u32);
        lemma_set_not_empty(name, data.len() as u64, first as u32);
        let written = lemma_written_cluster(v, d, m, w, root, set, hops);
        assert forall|c: int| first <= c < first + count implies !#[trigger] allocated(v, d, c) by {
            assert(!bit_at(v, d, c - 2));
        }
        assert forall|c: int| 2 <= c < 2 + v.bitmap_sectors() * SECTOR_BITS implies
            #[trigger] allocated(v, w, c) == (first <= c < first + count || allocated(v, d, c)) by {
            let k = c - 2;
            let x = v.bitmap_lba() + k / 4096;
            assert(in_bitmap(v, x));
            assert(d.contains_key(x));
            lemma_marked_bits(v, d, bit, bit + count, k);
            // The data does not lie in the bitmap.
            lemma_bitmap_is_apart(v, d, x, bit, count);
            assert(agree(marks, m, x));
            assert(!in_cluster(v, x, written));
            assert(agree(m, w, x));
            lemma_marked(v, d, bit, bit + count);
            assert(marks.contains_key(x));
        }
        assert(is_cluster(v, first));
    }
}

/// A sector of the bitmap lies in no run of free clusters.
proof fn lemma_bitmap_is_apart(v: Volume, d: Disk, x: int, bit: int, count: int)
    requires
        heap_sound(v, d),
        in_bitmap(v, x),
        0 <= bit,
        0 < count,
        bit + count <= v.cluster_count,
        forall|i: int| bit <= i < bit + count ==> !#[trigger] bit_at(v, d, i),
    ensures
        x < v.spec_cluster_lba(bit + 2) || v.spec_cluster_lba(bit + 2) + count
            * v.sectors_per_cluster <= x,
{
    let s = v.sectors_per_cluster as int;
    let base = v.spec_cluster_lba(bit + 2);
    if base <= x < base + count * s {
        let j = (x - base) / s;
        let c = bit + 2 + j;
        vstd::arithmetic::div_mod::lemma_fundamental_div_mod(x - base, s);
        assert(0 <= j < count && v.heap_lba + (c - 2) * s <= x < v.heap_lba + (c - 2) * s + s)
            by (nonlinear_arith)
            requires
                x - base == s * j + (x - base) % s,
                0 <= (x - base) % s < s,
                0 <= x - base < count * s,
                base == v.heap_lba + bit * s,
                c == bit + 2 + j,
                s >= 1,
        ;
        assert(in_cluster(v, x, c));
        assert(is_cluster(v, c));
        assert(allocated(v, d, c));
        assert(!bit_at(v, d, c - 2));
    }
}

/// A creation leaves every other file as it was: a file of the root directory
/// whose clusters are in use, and hold neither the bitmap nor the directory,
/// reads the same after a file was created.
pub proof fn law_creation_keeps_other_files(
    v: Volume,
    d: Disk,
    name: Seq<u8>,
    data: Seq<u8>,
    look: nat,
    hops: nat,
    w: Disk,
    other: Seq<u8>,
    f: FileModel,
    reach: nat,
)
    requires
        heap_sound(v, d),
        dir_sound(v, d, v.root_cluster as int, hops),
        data.len() <= u64::MAX,
        created(v, d, name, data, look, hops) == Some((Ok::<(), CreateError>(()), w)),
        find(v, d, other, v.root_cluster as int, nothing_parsed(), reach) == Some(Some(f)),
        f.data_length > 0 && f.first_cluster >= 2 ==> file_sound(
            v,
            d,
            hops,
            f.first_cluster as int,
            f.data_length as int,
            f.no_fat_chain,
        ),
    ensures
        file_contents(v, w, other, reach) == file_contents(v, d, other, reach),
{
    let root = v.root_cluster as int;
    let (m, first) = if data.len() == 0 {
        assert forall|lba: int| kept(v, d, lba) implies #[trigger] agree(d, d, lba) by {}
        (d, 0)
    } else {
        let (bit, marks, m) = lemma_stages(v, d, name, data, hops, w);
        (m, bit + 2)
    };
    let set = entry_set(name, data.len() as u64, first as u32);
    lemma_set_not_empty(name, data.len() as u64, first as u32);
    let written = lemma_written_cluster(v, d, m, w, root, set, hops);
    lemma_found_kept(v, d, m, w, root, nothing_parsed(), set, other, f, reach, hops);
    if f.data_length > 0 && f.first_cluster >= 2 {
        lemma_data_kept(
            v,
            d,
            m,
            w,
            hops,
            written,
            f.first_cluster as int,
            f.data_length as int,
            f.no_fat_chain,
        );
    }
}

/// Cluster `n` follows cluster `cluster` in a directory and holds nothing but
/// its end: it is in use, does not hold the bitmap, and starts with an end
/// marker.
pub open spec fn ends_at_once(v: Volume, d: Disk, cluster: int, n: int) -> bool {
    &&& n != cluster
    &&& is_cluster(v, n)
    &&& allocated(v, d, n)
    &&& forall|lba: int| #[trigger] in_cluster(v, lba, n) ==> !in_bitmap(v, lba)
    &&& v.cluster(d, n) is Some
    &&& v.cluster(d, n)->0[0] == ET_END
}

/// Behind the room that `entries` new entries take from the end marker of a
/// directory on, no file `other` comes to light: the rest of the cluster
/// names none, and there, or at the start of the next cluster, the directory
/// ends again. So it is where all entries after the end marker are end
/// markers.
pub open spec fn nothing_behind(
    v: Volume,
    d: Disk,
    other: Seq<u8>,
    cluster: int,
    entries: int,
    hops: nat,
) -> bool
    decreases hops,
{
    let bytes = v.cluster(d, cluster)->0;
    match end_entry(bytes, 0) {
        Some(pos) => {
            let q = cluster_parsed(nothing_parsed(), bytes, pos + entries);
            &&& first_wanted(q.files, other) is None
            &&& q.ended || match dir_next(v, d, cluster) {
                None => true,
                Some(n) => ends_at_once(v, d, cluster, n),
            }
        },
        None => hops > 0 && chain_next(v, d, cluster) is Some ==> nothing_behind(
            v,
            d,
            other,
            chain_next(v, d, cluster)->0,
            entries,
            (hops - 1) as nat,
        ),
    }
}

/// The files found before only precede those that are found.
pub proof fn lemma_files_precede(p: Parse, bytes: Seq<u8>, i: int)
    ensures
        ({
            let c = cluster_parsed(without_files(p), bytes, i);
            cluster_parsed(p, bytes, i) == (Parse { files: p.files + c.files, ..c })
        }),
    decreases bytes.len() - i * DIR_ENTRY,
{
    if 0 <= i && (i + 1) * DIR_ENTRY <= bytes.len() {
        let e = entry_at(bytes, i);
        let p1 = entry_parsed(p, e);
        let c1 = entry_parsed(without_files(p), e);
        assert(p1.files =~= p.files + c1.files);
        assert(without_files(p1) == without_files(c1));
        lemma_files_precede(p1, bytes, i + 1);
        lemma_files_precede(c1, bytes, i + 1);
        let x = cluster_parsed(without_files(p1), bytes, i + 1);
        assert(p1.files + x.files =~= p.files + (c1.files + x.files));
    } else {
        assert(p.files + Seq::<FileModel>::empty() =~= p.files);
    }
}

/// Clusters whose entries are the same from the `i`th on read the same from
/// there.
proof fn lemma_rest_same(p: Parse, a: Seq<u8>, b: Seq<u8>, i: int)
    requires
        a.len() == b.len(),
        0 <= i,
        forall|k: int|
            i <= k && (k + 1) * DIR_ENTRY <= a.len() ==> #[trigger] entry_at(a, k) == entry_at(b, k),
    ensures
        cluster_parsed(p, a, i) == cluster_parsed(p, b, i),
    decreases a.len() - i * DIR_ENTRY,
{
    if (i + 1) * DIR_ENTRY <= a.len() {
        assert(entry_at(a, i) == entry_at(b, i));
        lemma_rest_same(entry_parsed(p, entry_at(a, i)), a, b, i + 1);
    }
}

/// Two lists without a wanted file have none together.
proof fn lemma_none_wanted(a: Seq<FileModel>, b: Seq<FileModel>, name: Seq<u8>)
    requires
        first_wanted(a, name) is None,
        first_wanted(b, name) is None,
    ensures
        first_wanted(a + b, name) is None,
    decreases a.len(),
{
    if a.len() > 0 {
        assert((a + b).drop_first() =~= a.drop_first() + b);
        lemma_none_wanted(a.drop_first(), b, name);
    } else {
        assert(a + b =~= b);
    }
}

/// A list of one file that is not wanted holds no wanted one.
proof fn lemma_one_unwanted(f: FileModel, name: Seq<u8>)
    requires
        !is_wanted(f, name),
    ensures
        first_wanted(seq![f], name) is None,
{
    reveal_with_fuel(first_wanted, 2);
    assert(seq![f].drop_first().len() == 0);
}

/// A cluster with a set written over its end marker names no wanted file,
/// where neither the cluster before the marker, nor the set, nor what lies
/// behind the set does.
proof fn lemma_still_absent(
    p: Parse,
    bytes: Seq<u8>,
    pos: int,
    set: Seq<u8>,
    f: FileModel,
    other: Seq<u8>,
)
    requires
        !p.ended,
        end_entry(bytes, 0) == Some(pos),
        set_is_file(set, f),
        !is_wanted(f, other),
        pos * 32 + set.len() <= bytes.len(),
        first_wanted(cluster_parsed(p, bytes, 0).files, other) is None,
        first_wanted(
            cluster_parsed(nothing_parsed(), bytes, pos + set.len() as int / 32).files,
            other,
        ) is None,
    ensures
        ({
            let new = cluster_parsed(p, spliced(bytes, pos * 32, set), 0);
            &&& first_wanted(new.files, other) is None
            &&& new.ended == cluster_parsed(
                nothing_parsed(),
                bytes,
                pos + set.len() as int / 32,
            ).ended
        }),
{
    let new = spliced(bytes, pos * 32, set);
    let k = pos + set.len() as int / 32;
    lemma_end_after(bytes, 0);
    lemma_before_end(p, bytes, 0, pos);
    lemma_parsed_to_goes_on(p, bytes, pos);
    lemma_parse_in_parts(p, bytes, pos);
    lemma_parse_in_parts(p, new, pos);
    assert forall|i: int| 0 <= i < pos implies #[trigger] entry_at(bytes, i) == entry_at(new, i) by {
        assert(entry_at(bytes, i) =~= entry_at(new, i));
    }
    lemma_parse_same(p, bytes, new, pos);
    let q = parsed_to(p, bytes, pos);
    assert(entry_at(bytes, pos)[0] == bytes[pos * DIR_ENTRY]);
    lemma_ended_stays(entry_parsed(q, entry_at(bytes, pos)), bytes, pos + 1);
    assert(first_wanted(q.files, other) is None);
    // The set adds its file, which is another.
    assert(new.subrange(pos * 32, pos * 32 + set.len()) =~= set);
    lemma_parse_set_inside(q, new, pos, set, 0);
    let r = cluster_parsed(q, set, 0);
    assert(r.files == q.files.push(f));
    assert(r.files =~= q.files + seq![f]);
    lemma_one_unwanted(f, other);
    lemma_none_wanted(q.files, seq![f], other);
    // What lies behind the set is as it was.
    assert forall|i: int| k <= i && (i + 1) * DIR_ENTRY <= bytes.len() implies #[trigger] entry_at(
        bytes,
        i,
    ) == entry_at(new, i) by {
        assert(entry_at(bytes, i) =~= entry_at(new, i));
    }
    assert(without_files(r) == nothing_parsed());
    lemma_rest_same(nothing_parsed(), bytes, new, k);
    lemma_files_precede(r, new, k);
    lemma_none_wanted(r.files, cluster_parsed(nothing_parsed(), bytes, k).files, other);
}

/// A name that is absent from a directory stays absent after the entry set of
/// another file was appended.
proof fn lemma_absent_kept(
    v: Volume,
    d: Disk,
    m: Disk,
    w: Disk,
    cluster: int,
    p: Parse,
    set: Seq<u8>,
    f: FileModel,
    other: Seq<u8>,
    look: nat,
    hops: nat,
)
    requires
        heap_sound(v, d),
        dir_sound(v, d, cluster, hops),
        forall|lba: int| kept(v, d, lba) ==> #[trigger] agree(d, m, lba),
        appended(v, m, cluster, set, hops) == Some((Ok::<(), CreateError>(()), w)),
        set.len() > 0,
        set_is_file(set, f),
        !is_wanted(f, other),
        !p.ended,
        find(v, d, other, cluster, p, look) == Some(None::<FileModel>),
        nothing_behind(v, d, other, cluster, set.len() as int / 32, hops),
    ensures
        find(v, w, other, cluster, p, look + 1) == Some(None::<FileModel>),
    decreases hops,
{
    reveal_with_fuel(appended, 2);
    reveal_with_fuel(appended_after, 2);
    reveal_with_fuel(find, 2);
    reveal_with_fuel(find_after, 2);
    let lba = v.spec_cluster_lba(cluster);
    let spc = v.sectors_per_cluster as int;
    lemma_clusters_apart(v, cluster, cluster);
    assert forall|x: int| lba <= x < lba + spc implies #[trigger] agree(d, m, x) by {
        assert(in_cluster(v, x, cluster));
        assert(kept(v, d, x));
    }
    lemma_read_agrees(d, m, lba, spc);
    let bytes = v.cluster(m, cluster)->0;
    assert(v.cluster(d, cluster) == Some(bytes));
    let p0 = without_files(p);
    let q = cluster_parsed(p0, bytes, 0);
    assert(first_wanted(q.files, other) is None);
    let written = lemma_written_cluster(v, d, m, w, cluster, set, hops);
    lemma_clusters_apart(v, written, written);
    assert forall|x: int| x < v.heap_lba implies #[trigger] agree(d, m, x) by {
        assert(kept(v, d, x));
    }
    assert forall|x: int| x < v.heap_lba implies #[trigger] agree(m, w, x) by {
        assert(!in_cluster(v, x, written));
    }
    lemma_fat_kept(v, d, m, cluster);
    lemma_fat_kept(v, m, w, cluster);
    match end_entry(bytes, 0) {
        Some(pos) => {
            lemma_new_cluster(v, m, w, cluster, bytes, pos, set);
            lemma_still_absent(p0, bytes, pos, set, f, other);
            let new = cluster_parsed(p0, spliced(bytes, pos * DIR_ENTRY, set), 0);
            if !new.ended {
                if let Some(n) = dir_next(v, d, cluster) {
                    lemma_end_cluster(v, d, m, w, cluster, n, bytes, pos, set, new, other, look);
                }
            }
        },
        None => {
            let n = chain_next(v, m, cluster)->0;
            let rest = (hops - 1) as nat;
            assert(dir_sound(v, d, n, rest));
            assert(written != cluster) by {
                if written == cluster {
                    assert(end_entry(v.cluster(d, written)->0, 0) is Some);
                }
            }
            lemma_clusters_apart(v, written, cluster);
            assert forall|x: int| lba <= x < lba + spc implies #[trigger] agree(m, w, x) by {
                assert(!in_cluster(v, x, written));
            }
            lemma_read_agrees(m, w, lba, spc);
            lemma_no_end(p0, bytes, 0);
            assert(dir_next(v, d, cluster) == Some(n));
            lemma_absent_kept(v, d, m, w, n, q, set, f, other, (look - 1) as nat, rest);
        },
    }
}

/// A cluster that only ends a directory still does after an entry set was
/// written to the cluster before it.
proof fn lemma_end_cluster(
    v: Volume,
    d: Disk,
    m: Disk,
    w: Disk,
    cluster: int,
    n: int,
    bytes: Seq<u8>,
    pos: int,
    set: Seq<u8>,
    q: Parse,
    other: Seq<u8>,
    look: nat,
)
    requires
        heap_sound(v, d),
        is_cluster(v, cluster),
        ends_at_once(v, d, cluster, n),
        forall|lba: int| kept(v, d, lba) ==> #[trigger] agree(d, m, lba),
        v.cluster(m, cluster) == Some(bytes),
        end_entry(bytes, 0) == Some(pos),
        appended_here(v, m, cluster, bytes, pos * DIR_ENTRY, set) == (Ok::<(), CreateError>(()), w),
        set.len() > 0,
        !q.ended,
    ensures
        find(v, w, other, n, q, look) == Some(None::<FileModel>),
{
    let lba = v.spec_cluster_lba(cluster);
    let spc = v.sectors_per_cluster as int;
    let off = pos * DIR_ENTRY;
    let first = off / 512;
    let last = (off + set.len() - 1) / 512;
    lemma_end_after(bytes, 0);
    lemma_sectors_written(m, lba, spliced(bytes, off, set), first, last);
    assert(v.spec_cluster_bytes() == spc * 512);
    assert(last < spc);
    lemma_clusters_apart(v, cluster, n);
    lemma_clusters_apart(v, n, n);
    let at = v.spec_cluster_lba(n);
    assert forall|x: int| at <= x < at + spc implies #[trigger] agree(d, w, x) by {
        assert(in_cluster(v, x, n));
        assert(kept(v, d, x));
        assert(agree(d, m, x));
        assert(x < lba + first || lba + last < x);
        assert(agree(m, w, x));
    }
    lemma_read_agrees(d, w, at, spc);
    let b = v.cluster(d, n)->0;
    assert(v.cluster(w, n) == Some(b));
    assert(b.len() >= DIR_ENTRY);
    assert(entry_at(b, 0)[0] == b[0]);
    let p0 = without_files(q);
    let p1 = entry_parsed(p0, entry_at(b, 0));
    assert(p1.ended);
    assert(cluster_parsed(p0, b, 0) == cluster_parsed(p1, b, 1));
    lemma_ended_stays(p1, b, 1);
    assert(first_wanted(p1.files, other) is None);
}

/// A creation brings no other name to light: a name that was absent from the
/// root directory, and differs from that of the new file by more than the
/// case of letters, is absent after the file was created, unless entries of it
/// were left behind the end of the directory.
pub proof fn law_creation_adds_one_name(
    v: Volume,
    d: Disk,
    name: Seq<u8>,
    data: Seq<u8>,
    look: nat,
    hops: nat,
    w: Disk,
    other: Seq<u8>,
    reach: nat,
)
    requires
        heap_sound(v, d),
        dir_sound(v, d, v.root_cluster as int, hops),
        plain_name(name),
        data.len() <= u64::MAX,
        created(v, d, name, data, look, hops) == Some((Ok::<(), CreateError>(()), w)),
        !same_name(name, other),
        find(v, d, other, v.root_cluster as int, nothing_parsed(), reach) == Some(None::<FileModel>),
        nothing_behind(
            v,
            d,
            other,
            v.root_cluster as int,
            2 + name_entries(name.len() as int),
            hops,
        ),
    ensures
        file_contents(v, w, other, reach + 1) == Some(None::<Seq<u8>>),
{
    let root = v.root_cluster as int;
    let (m, first) = if data.len() == 0 {
        assert forall|lba: int| kept(v, d, lba) implies #[trigger] agree(d, d, lba) by {}
        (d, 0)
    } else {
        let (bit, marks, m) = lemma_stages(v, d, name, data, hops, w);
        (m, bit + 2)
    };
    let len = data.len() as u64;
    let set = entry_set(name, len, first as u32);
    lemma_set_is_file(name, len, first as u32);
    lemma_file_answers(name, len, first as u32, other);
    lemma_absent_kept(
        v,
        d,
        m,
        w,
        root,
        nothing_parsed(),
        set,
        file_of(name, len, first as u32),
        other,
        reach,
        hops,
    );
}

} // verus!
