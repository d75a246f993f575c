//! Which clusters a new file gets, and where its entries go.

use vstd::prelude::*;
use super::create::{
    appended, appended_after, bit_is_set, clusters_for, created, created_new, end_entry,
    good_name, padded_sector, search, search_sector, CreateError, Search, SECTOR_BITS,
};
use super::disk::{disk_wf, readable, Disk, Volume};
use super::laws::{agree, allocated, bit_at, lemma_sector_read, lemma_sectors_written};
use super::read::file_contents;

verus! {

/// Bit `k` of the bitmap is bit `k % 8`, counted from the low end, of its byte
/// `k / 8`.
pub proof fn law_bitmap_bits(bytes: Seq<u8>, k: int)
    requires
        0 <= k < 8 * bytes.len(),
    ensures
        bit_is_set(bytes, k) <==> (bytes[k / 8] >> ((k % 8) as u8)) % 2 == 1,
{
    let b = bytes[k / 8];
    let i = (k % 8) as u8;
    assert((b & (1u8 << i) != 0) == ((b >> i) % 2 == 1)) by (bit_vector)
        requires
            i < 8,
    ;
}

/// The bitmap begins with the bit of cluster 2, at the start of the cluster
/// that the root directory names for it.
pub proof fn law_bitmap_lies_in_its_cluster(v: Volume, d: Disk, c: int)
    requires
        c >= 2,
    ensures
        ({
            let at = c - 2;
            let sector = v.heap_lba + (v.bitmap_cluster - 2) * v.sectors_per_cluster + at / 4096;
            allocated(v, d, c) <==> bit_is_set(d[sector], at % 4096)
        }),
        512 * (v.bitmap_sectors() - 1) < v.bitmap_bytes <= 512 * v.bitmap_sectors(),
{
}

/// The `count` clusters whose bits begin at `b` are free.
pub open spec fn clear_run(v: Volume, d: Disk, b: int, count: int) -> bool {
    0 <= b && forall|i: int| b <= i < b + count ==> !#[trigger] bit_at(v, d, i)
}

/// How a search for a first run stands at bit `pos`: `len` clear bits lie
/// before it, and no run ends before it.
spec fn standing(v: Volume, d: Disk, pos: int, count: int, start: int, len: int) -> bool {
    &&& 0 <= len < count
    &&& len <= pos
    &&& len > 0 ==> start == pos - len
    &&& forall|i: int| pos - len <= i < pos ==> !#[trigger] bit_at(v, d, i)
    &&& pos - len > 0 ==> bit_at(v, d, pos - len - 1)
    &&& forall|b: int| #[trigger] clear_run(v, d, b, count) ==> b + count > pos
}

proof fn lemma_sector_first(v: Volume, d: Disk, s: int, k: int, count: int, start: int, len: int)
    requires
        0 <= s,
        0 <= k <= 4096,
        standing(v, d, s * 4096 + k, count, start, len),
    ensures
        match search_sector(
            d[v.bitmap_lba() + s],
            s * SECTOR_BITS,
            k,
            v.cluster_count as int,
            count,
            start,
            len,
        ) {
            Search::Found(b) => {
                &&& clear_run(v, d, b, count)
                &&& b + count <= v.cluster_count
                &&& forall|c: int| #[trigger] clear_run(v, d, c, count) ==> b <= c
            },
            Search::End => forall|c: int| #[trigger]
                clear_run(v, d, c, count) ==> c + count > v.cluster_count,
            Search::Run { start: s2, len: l2 } => standing(v, d, (s + 1) * 4096, count, s2, l2),
        },
    decreases 4096 - k,
{
    reveal_with_fuel(search_sector, 1);
    let bytes = d[v.bitmap_lba() + s];
    let pos = s * 4096 + k;
    if k < 4096 && pos < v.cluster_count {
        assert(pos / 4096 == s && pos % 4096 == k);
        assert(bit_at(v, d, pos) == bit_is_set(bytes, k));
        if bit_is_set(bytes, k) {
            assert forall|b: int| #[trigger] clear_run(v, d, b, count) implies b + count > pos + 1 by {
                if b + count == pos + 1 {
                    assert(!bit_at(v, d, pos));
                }
            }
            lemma_sector_first(v, d, s, k + 1, count, start, 0);
        } else {
            let begin = if len == 0 {
                pos
            } else {
                start
            };
            if len + 1 == count {
                assert(clear_run(v, d, begin, count));
            } else {
                assert forall|b: int| #[trigger] clear_run(v, d, b, count) implies b + count > pos + 1 by {
                    if b + count == pos + 1 {
                        assert(b <= pos - len - 1 < b + count);
                        assert(!bit_at(v, d, pos - len - 1));
                    }
                }
                lemma_sector_first(v, d, s, k + 1, count, begin, len + 1);
            }
        }
    }
}

proof fn lemma_search_first(v: Volume, d: Disk, s: int, count: int, start: int, len: int)
    requires
        disk_wf(d),
        0 <= s <= v.bitmap_sectors(),
        readable(d, v.bitmap_lba(), v.bitmap_sectors()),
        standing(v, d, s * 4096, count, start, len),
    ensures
        match search(v, d, s, count, start, len) {
            Some(b) => {
                &&& clear_run(v, d, b, count)
                &&& b + count <= v.cluster_count
                &&& forall|c: int| #[trigger] clear_run(v, d, c, count) ==> b <= c
            },
            None => forall|c: int| #[trigger]
                clear_run(v, d, c, count) ==> c + count > v.cluster_count || c + count > 4096
                    * v.bitmap_sectors(),
        },
    decreases v.bitmap_sectors() - s,
{
    reveal_with_fuel(search, 1);
    if s < v.bitmap_sectors() {
        assert(d.contains_key(v.bitmap_lba() + s));
        lemma_sector_read(d, v.bitmap_lba() + s);
        lemma_sector_first(v, d, s, 0, count, start, len);
        if let Search::Run { start: s2, len: l2 } = search_sector(
            d[v.bitmap_lba() + s],
            s * SECTOR_BITS,
            0,
            v.cluster_count as int,
            count,
            start,
            len,
        ) {
            lemma_search_first(v, d, s + 1, count, s2, l2);
        }
    }
}

/// The first fit: of all runs of `count` free clusters the one that lies first
/// is taken, and a search fails only where the volume has no such run.
pub proof fn law_first_fit(v: Volume, d: Disk, count: int)
    requires
        disk_wf(d),
        readable(d, v.bitmap_lba(), v.bitmap_sectors()),
        count > 0,
    ensures
        match search(v, d, 0, count, 0, 0) {
            Some(b) => {
                &&& 0 <= b
                &&& b + count <= v.cluster_count
                &&& forall|i: int| b <= i < b + count ==> !#[trigger] bit_at(v, d, i)
                &&& forall|c: int| #[trigger] clear_run(v, d, c, count) ==> b <= c
            },
            None => forall|c: int| #[trigger]
                clear_run(v, d, c, count) ==> c + count > v.cluster_count || c + count > 4096
                    * v.bitmap_sectors(),
        },
{
    lemma_search_first(v, d, 0, count, 0, 0);
}

/// A file gets as many clusters as hold it, and no more.
pub proof fn law_file_gets_the_clusters_it_needs(v: Volume, len: int)
    requires
        v.wf(),
        len > 0,
    ensures
        ({
            let size = 512 * v.sectors_per_cluster;
            let n = clusters_for(v, len);
            &&& n >= 1
            &&& size * (n - 1) < len <= size * n
        }),
{
    let size = 512 * v.sectors_per_cluster as int;
    assert(v.spec_cluster_bytes() == size);
    let y = len + size - 1;
    vstd::arithmetic::div_mod::lemma_fundamental_div_mod(y, size);
    vstd::arithmetic::div_mod::lemma_mod_bound(y, size);
    let n = y / size;
    assert(size * (n - 1) == size * n - size) by (nonlinear_arith);
    assert(n >= 1) by (nonlinear_arith)
        requires
            size * n + y % size == y,
            y >= size,
            0 <= y % size < size,
            size > 0,
    ;
}

/// What is written of a file: its bytes, with zeros behind the last up to the
/// end of the sector.
pub proof fn law_last_sector_is_padded(data: Seq<u8>, at: int, i: int)
    requires
        0 <= at,
        0 <= i < 512,
    ensures
        padded_sector(data, at).len() == 512,
        at + i < data.len() ==> padded_sector(data, at)[i] == data[at + i],
        at + i >= data.len() ==> padded_sector(data, at)[i] == 0,
{
}

/// The type of entry `k` of a directory.
pub open spec fn entry_type(bytes: Seq<u8>, k: int) -> u8 {
    bytes[32 * k]
}

/// New entries go where the directory ends: at its first entry of type 0.
pub proof fn law_end_of_directory(bytes: Seq<u8>, i: int)
    requires
        0 <= i,
    ensures
        match end_entry(bytes, i) {
            Some(n) => {
                &&& i <= n
                &&& 32 * (n + 1) <= bytes.len()
                &&& bytes[32 * n] == 0
                &&& forall|k: int| i <= k < n ==> #[trigger] entry_type(bytes, k) != 0
            },
            None => forall|k: int|
                i <= k && 32 * (k + 1) <= bytes.len() ==> #[trigger] entry_type(bytes, k) != 0,
        },
    decreases bytes.len() - 32 * i,
{
    reveal_with_fuel(end_entry, 1);
    if 32 * (i + 1) <= bytes.len() && bytes[32 * i] != 0 {
        law_end_of_directory(bytes, i + 1);
        assert(entry_type(bytes, i) != 0);
    }
}

/// Names of one to thirty ASCII characters can be given to files.
pub proof fn law_names_of_files(name: Seq<char>)
    ensures
        good_name(name) <==> 1 <= name.len() <= 30 && vstd::utf8::is_ascii_chars(name),
{
}

/// A file is created only where none of its name can be read; where one can,
/// or no run of clusters is free, the disk is left as it was.
pub proof fn law_refused_creation_changes_nothing(
    v: Volume,
    d: Disk,
    name: Seq<u8>,
    data: Seq<u8>,
    look: nat,
    hops: nat,
)
    ensures
        file_contents(v, d, name, look) is Some && file_contents(v, d, name, look)->0 is Some
            ==> created(v, d, name, data, look, hops) == Some((Err::<(), CreateError>(CreateError::Exists), d)),
        file_contents(v, d, name, look) == Some(None::<Seq<u8>>) && data.len() > 0 && search(
            v,
            d,
            0,
            clusters_for(v, data.len() as int),
            0,
            0,
        ) is None ==> created(v, d, name, data, look, hops) == Some(
            (Err::<(), CreateError>(CreateError::NoSpace), d),
        ),
        file_contents(v, d, name, look) == Some(None::<Seq<u8>>) ==> created(
            v,
            d,
            name,
            data,
            look,
            hops,
        ) == created_new(v, d, name, data, hops),
{
}

/// The entries of a new file are put where the directory ends, in the cluster
/// that has its end; what lies before and behind them there stays, and so does
/// every sector outside that cluster.
pub proof fn law_entries_go_to_the_end(
    v: Volume,
    d: Disk,
    cluster: int,
    set: Seq<u8>,
    hops: nat,
    w: Disk,
    bytes: Seq<u8>,
    pos: int,
    lba: int,
)
    requires
        v.wf(),
        cluster >= 2,
        v.cluster(d, cluster) == Some(bytes),
        end_entry(bytes, 0) == Some(pos),
        set.len() > 0,
        appended(v, d, cluster, set, hops) == Some((Ok::<(), CreateError>(()), w)),
    ensures
        32 * pos + set.len() <= 512 * v.sectors_per_cluster,
        v.cluster(w, cluster) == Some(
            bytes.take(32 * pos) + set + bytes.skip(32 * pos + set.len()),
        ),
        lba < v.heap_lba + (cluster - 2) * v.sectors_per_cluster || v.heap_lba + (cluster - 2)
            * v.sectors_per_cluster + v.sectors_per_cluster <= lba ==> agree(d, w, lba),
{
    reveal_with_fuel(appended, 1);
    law_end_of_directory(bytes, 0);
    super::volume_laws::lemma_new_cluster(v, d, w, cluster, bytes, pos, set);
    let new = crate::bytes::spliced(bytes, 32 * pos, set);
    assert(bytes.len() == 512 * v.sectors_per_cluster);
    crate::bytes::law_splice_keeps_the_rest(bytes, 32 * pos, set);
    lemma_sectors_written(
        d,
        v.spec_cluster_lba(cluster),
        new,
        32 * pos / 512,
        (32 * pos + set.len() - 1) / 512,
    );
}

/// Where the end of the directory leaves no room in its cluster for the
/// entries, nothing is written.
pub proof fn law_no_room_changes_nothing(v: Volume, d: Disk, cluster: int, set: Seq<u8>, hops: nat)
    requires
        v.wf(),
        cluster >= 2,
        v.cluster(d, cluster) is Some,
        end_entry(v.cluster(d, cluster)->0, 0) is Some,
        32 * end_entry(v.cluster(d, cluster)->0, 0)->0 + set.len() > 512 * v.sectors_per_cluster,
    ensures
        appended(v, d, cluster, set, hops) == Some((Err::<(), CreateError>(CreateError::NoRoom), d)),
{
    reveal_with_fuel(appended, 1);
}

/// The end of a directory is looked for along its chain; a directory without
/// an end is full.
pub proof fn law_end_is_looked_for_along_the_chain(
    v: Volume,
    d: Disk,
    cluster: int,
    set: Seq<u8>,
    hops: nat,
)
    requires
        cluster >= 2,
        v.cluster(d, cluster) is Some,
        end_entry(v.cluster(d, cluster)->0, 0) is None,
        hops > 0,
    ensures
        ({
            let word = v.fat_entry(d, cluster);
            &&& 2 <= word < 0xFFFF_FFFF ==> appended(v, d, cluster, set, hops) == appended(
                v,
                d,
                word,
                set,
                (hops - 1) as nat,
            )
            &&& word < 2 || word == 0xFFFF_FFFF ==> appended(v, d, cluster, set, hops) == Some(
                (Err::<(), CreateError>(CreateError::RootFull), d),
            )
        }),
{
    reveal_with_fuel(appended, 1);
    reveal_with_fuel(appended_after, 1);
}

} // verus!
