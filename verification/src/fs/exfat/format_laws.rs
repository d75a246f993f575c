//! What lies where on a volume: FAT entries, clusters, directory entries, and
//! the hash and the checksum by which entries are checked.

use vstd::prelude::*;
use crate::bytes::{le16, le32_bytes, le64_bytes};
use super::dir::{entry_parsed, name_extended, same_name, upper, FileModel, Parse};
use super::disk::{extent, Access, Disk, Volume};
use super::entry_set::{
    checksum_of, entry_set, file_entry, hash_of, name_entries, name_entry, name_part, rotated,
    set_without_checksum, stream_entry,
};

verus! {

/// One step of the checksum is a rotation to the right of 16 bits, then an
/// addition.
proof fn lemma_rotated(sum: u16, b: u8)
    ensures
        rotated(sum as int, b) == (((sum >> 1) | (sum << 15)) + b) % 0x1_0000,
{
    assert((sum >> 1) | (sum << 15) == sum / 2 + (sum % 2) * 0x8000) by (bit_vector);
}

/// The hash of a part of a name does not depend on what follows.
proof fn lemma_hash_of_part(name: Seq<u8>, c: u8, n: int)
    requires
        0 <= n <= name.len(),
    ensures
        hash_of(name.push(c), n) == hash_of(name, n),
        0 <= hash_of(name, n) < 0x1_0000,
    decreases n,
{
    if n > 0 {
        lemma_hash_of_part(name, c, n - 1);
        assert(name.push(c)[n - 1] == name[n - 1]);
    }
}

/// The hash of a name one character longer is the hash of the name, turned
/// right by one bit and added to by the low byte of the upper-case character,
/// then turned again for the high byte, which is zero. The hash of no
/// characters is zero.
pub proof fn law_name_hash_takes_every_character(name: Seq<u8>, c: u8)
    ensures
        hash_of(name, 0) == 0,
        0 <= hash_of(name, name.len() as int) <= 0xFFFF,
        ({
            let h = hash_of(name, name.len() as int) as u16;
            let capital = if 97 <= c <= 122 {
                c - 32
            } else {
                c as int
            };
            let low = ((((h >> 1) | (h << 15)) + capital) % 0x1_0000) as u16;
            hash_of(name.push(c), name.len() as int + 1) == (low >> 1) | (low << 15)
        }),
{
    let n = name.len() as int;
    lemma_hash_of_part(name, c, n);
    let h = hash_of(name, n) as u16;
    assert(name.push(c)[n] == c);
    lemma_rotated(h, upper(c));
    let low = ((((h >> 1) | (h << 15)) + upper(c)) % 0x1_0000) as u16;
    lemma_rotated(low, 0);
    let turned = (low >> 1) | (low << 15);
    assert(turned <= 0xFFFF);
}

/// Names hash to what other implementations find: the hash of a name does not
/// depend on the case of its letters.
pub proof fn law_name_hash_ignores_case(a: Seq<u8>, b: Seq<u8>, n: int)
    requires
        0 <= n <= a.len(),
        n <= b.len(),
        forall|i: int|
            0 <= i < n ==> (#[trigger] a[i] == b[i] || (97 <= a[i] <= 122 && b[i] == a[i] - 32) || (97
                <= b[i] <= 122 && a[i] == b[i] - 32)),
    ensures
        hash_of(a, n) == hash_of(b, n),
    decreases n,
{
    if n > 0 {
        law_name_hash_ignores_case(a, b, n - 1);
        assert(a[n - 1] == a[n - 1]);
    }
}

/// The hashes of some names.
pub proof fn law_known_name_hashes()
    ensures
        hash_of(seq![0x44u8, 0x41u8, 0x54u8, 0x41u8], 4) == 0x902D,
        hash_of(seq![0x48u8, 0x45u8, 0x4Cu8, 0x4Cu8, 0x4Fu8], 5) == 0x0E34,
{
    let data = seq![0x44u8, 0x41u8, 0x54u8, 0x41u8];
    assert(hash_of(data, 0) == 0);
    assert(hash_of(data, 1) == 0x0022);
    assert(hash_of(data, 2) == 0x0029);
    assert(hash_of(data, 3) == 0x4034);
    assert(hash_of(data, 4) == 0x902D);
    let hello = seq![0x48u8, 0x45u8, 0x4Cu8, 0x4Cu8, 0x4Fu8];
    assert(hash_of(hello, 0) == 0);
    assert(hash_of(hello, 1) == 0x0024);
    assert(hash_of(hello, 2) == 0x802B);
    assert(hash_of(hello, 3) == 0xE030);
    assert(hash_of(hello, 4) == 0x3832);
    assert(hash_of(hello, 5) == 0x0E34);
}

/// The checksum of a set one byte longer is that of the set, turned right by
/// one bit and added to by the byte; the third and the fourth byte of a set
/// hold the checksum itself and do not count. The checksum of nothing is zero.
pub proof fn law_checksum_takes_every_byte(set: Seq<u8>, n: int)
    requires
        0 <= n < set.len(),
    ensures
        checksum_of(set, 0) == 0,
        0 <= checksum_of(set, n) <= 0xFFFF,
        n == 2 || n == 3 ==> checksum_of(set, n + 1) == checksum_of(set, n),
        n != 2 && n != 3 ==> ({
            let h = checksum_of(set, n) as u16;
            checksum_of(set, n + 1) == (((h >> 1) | (h << 15)) + set[n]) % 0x1_0000
        }),
{
    lemma_checksum_bound(set, n);
    lemma_rotated(checksum_of(set, n) as u16, set[n]);
}

proof fn lemma_checksum_bound(set: Seq<u8>, n: int)
    ensures
        0 <= checksum_of(set, n) <= 0xFFFF,
    decreases n,
{
    if n > 0 {
        lemma_checksum_bound(set, n - 1);
    }
}

/// The checksum does not depend on what its own field holds.
proof fn lemma_checksum_skips_its_field(a: Seq<u8>, b: Seq<u8>, n: int)
    requires
        0 <= n <= a.len(),
        a.len() == b.len(),
        forall|i: int| 0 <= i < n && i != 2 && i != 3 ==> #[trigger] a[i] == b[i],
    ensures
        checksum_of(a, n) == checksum_of(b, n),
    decreases n,
{
    if n > 0 {
        lemma_checksum_skips_its_field(a, b, n - 1);
        assert(n - 1 != 2 && n - 1 != 3 ==> a[n - 1] == b[n - 1]);
    }
}

/// The entry set of a file: a file entry that counts the entries behind it and
/// holds the checksum of the whole set, the attribute of an archive and the
/// time; a stream entry with the length and the hash of the name, the first
/// cluster, and the size of the file twice, of which all is valid; and name
/// entries with the characters, 15 in each, zeros behind the last.
pub proof fn law_entry_set_layout(name: Seq<u8>, len: u64, first: u32, i: int)
    requires
        1 <= name.len() <= 30,
        0 <= i < 15,
    ensures
        ({
            let set = entry_set(name, len, first);
            let entries = if name.len() <= 15 {
                1int
            } else {
                2
            };
            &&& set.len() == 64 + 32 * entries
            // File
            &&& set[0] == 0x85
            &&& set[1] == 1 + entries
            &&& set[2] + 0x100 * set[3] == checksum_of(set, set.len() as int)
            &&& set[4] == 0x20 && set[5] == 0 && set[6] == 0 && set[7] == 0
            &&& set[8] == 0 && set[9] == 0x40 && set[10] == 0xF1 && set[11] == 0x5C
            &&& forall|k: int| 12 <= k < 20 ==> #[trigger] set[k] == set[k - 4]
            &&& set[20] == 0 && set[21] == 0
            &&& set[22] == 0x80 && set[23] == 0x80 && set[24] == 0x80
            &&& forall|k: int| 25 <= k < 32 ==> #[trigger] set[k] == 0
            // Stream
            &&& set[32] == 0xC0
            &&& set[33] == (if len > 0 {
                3int
            } else {
                1
            })
            &&& set[34] == 0
            &&& set[35] == name.len()
            &&& set[36] + 0x100 * set[37] == hash_of(name, name.len() as int)
            &&& set[38] == 0 && set[39] == 0
            &&& set.subrange(40, 48) == le64_bytes(len)
            &&& set[48] == 0 && set[49] == 0 && set[50] == 0 && set[51] == 0
            &&& set.subrange(52, 56) == le32_bytes(first)
            &&& set.subrange(56, 64) == le64_bytes(len)
            // Name
            &&& set[64] == 0xC1 && set[65] == 0
            &&& set[66 + 2 * i] == (if i < name.len() {
                name[i]
            } else {
                0
            })
            &&& set[67 + 2 * i] == 0
            &&& entries == 2 ==> {
                &&& set[96] == 0xC1 && set[97] == 0
                &&& set[98 + 2 * i] == (if 15 + i < name.len() {
                    name[15 + i]
                } else {
                    0
                })
                &&& set[99 + 2 * i] == 0
            }
        }),
{
    reveal(entry_set);
    let k = name_entries(name.len() as int);
    let plain = set_without_checksum(name, len, first);
    let set = entry_set(name, len, first);
    let fe = file_entry((1 + k) as u8);
    let se = stream_entry(name, len, first);
    reveal_with_fuel(name_part, 3);
    assert(fe.len() == 32);
    assert(se.len() == 32);
    assert(name_part(name, 1) =~= name_entry(name, 0));
    assert(name_part(name, 2) =~= name_entry(name, 0) + name_entry(name, 1));
    assert(plain.len() == 64 + 32 * k);
    lemma_checksum_bound(plain, plain.len() as int);
    lemma_checksum_skips_its_field(set, plain, set.len() as int);
    lemma_hash_of_part(name, 0, name.len() as int);
    assert(1u8 | 2u8 == 3u8) by (bit_vector);
    assert forall|j: int| 0 <= j < 32 && j != 2 && j != 3 implies #[trigger] set[j] == fe[j] by {}
    assert forall|j: int| 32 <= j < 64 implies #[trigger] set[j] == se[j - 32] by {}
    assert(set.subrange(40, 48) =~= le64_bytes(len));
    assert(set.subrange(52, 56) =~= le32_bytes(first));
    assert(set.subrange(56, 64) =~= le64_bytes(len));
    assert(set[66 + 2 * i] == name_entry(name, 0)[2 + 2 * i]);
    assert(set[67 + 2 * i] == name_entry(name, 0)[3 + 2 * i]);
    assert((2 + 2 * i - 2) / 2 == i);
    if k == 2 {
        assert(set[98 + 2 * i] == name_entry(name, 1)[2 + 2 * i]);
        assert(set[99 + 2 * i] == name_entry(name, 1)[3 + 2 * i]);
    }
}

/// The FAT is one array of words: the entry of a cluster is the little-endian
/// word at byte `4 * cluster` of the sectors from the first of the FAT on, and
/// the access for it reads the one sector that holds this word.
pub proof fn law_fat_is_an_array(v: Volume, d: Disk, cluster: int)
    requires
        0 <= cluster,
    ensures
        ({
            let at = 4 * cluster;
            let sector = v.fat_lba + at / 512;
            &&& v.fat_access(cluster) == (Access::Read { lba: sector, count: 1 })
            &&& v.fat_entry(d, cluster) == if d.contains_key(sector) {
                d[sector][at % 512] + 0x100 * d[sector][at % 512 + 1] + 0x1_0000 * d[sector][at % 512
                    + 2] + 0x100_0000 * d[sector][at % 512 + 3]
            } else {
                0
            }
            &&& 0 <= at % 512 <= 508
        }),
{
    let sector = v.fat_lba + 4 * cluster / 512;
    let b = extent(d, sector, 1);
    if d.contains_key(sector) {
        assert(crate::fs::exfat::disk::readable(d, sector, 1));
    }
    assert forall|i: int| 0 <= i < 512 implies #[trigger] b[i] == d[sector][i] by {
        assert(i / 512 == 0 && i % 512 == i);
    }
}

/// Different clusters have different FAT entries: their words lie in different
/// sectors, or at least four bytes apart in one.
pub proof fn law_fat_entries_are_apart(v: Volume, a: int, b: int)
    requires
        0 <= a < b,
    ensures
        ({
            let x = v.fat_access(a)->Read_lba;
            let y = v.fat_access(b)->Read_lba;
            &&& 512 * (x - v.fat_lba) + 4 * a % 512 == 4 * a
            &&& 512 * (y - v.fat_lba) + 4 * b % 512 == 4 * b
            &&& x < y || x == y && 4 * a % 512 + 4 <= 4 * b % 512
        }),
{
}

/// The clusters lie one after the other, the first, which is cluster 2, at the
/// start of the heap; each is read whole.
pub proof fn law_clusters_follow_each_other(v: Volume, cluster: int)
    ensures
        v.cluster_access(2)->Read_lba == v.heap_lba,
        v.cluster_access(cluster) is Read,
        v.cluster_access(cluster + 1)->Read_lba == v.cluster_access(cluster)->Read_lba
            + v.cluster_access(cluster)->Read_count,
        v.cluster_access(cluster)->Read_count == v.sectors_per_cluster,
        v.spec_cluster_bytes() == 512 * v.cluster_access(cluster)->Read_count,
{
    let s = v.sectors_per_cluster as int;
    assert((cluster + 1 - 2) * s == (cluster - 2) * s + s) by (nonlinear_arith);
    assert((2 - 2) * s == 0) by (nonlinear_arith);
}

/// What sectors hold is put together in their order.
pub proof fn law_sectors_in_order(d: Disk, lba: int, count: int, i: int, j: int)
    requires
        0 <= i < count,
        0 <= j < 512,
    ensures
        extent(d, lba, count).len() == 512 * count,
        extent(d, lba, count)[512 * i + j] == d[lba + i][j],
{
    assert((512 * i + j) / 512 == i && (512 * i + j) % 512 == j);
}

/// What an entry of a directory says. Type 0 ends the directory. Type 0x85
/// begins a file, with its attributes at byte 4. Type 0xC0 says where the data
/// of a file lies: its first cluster at byte 20, its length at byte 24, by bit
/// 1 of byte 1 whether it lies in one piece, and at byte 3 the length of the
/// name, which follows in entries of 15 characters. The last of them, of type
/// 0xC1, completes the file. All other entries are passed over.
pub proof fn law_directory_entries(p: Parse, e: Seq<u8>)
    requires
        !p.ended,
        e.len() == 32,
    ensures
        ({
            let q = entry_parsed(p, e);
            &&& q.ended == (e[0] == 0)
            &&& e[0] == 0 ==> q.current == p.current && q.files == p.files && q.names_left == p.names_left
            &&& e[0] == 0x85 ==> {
                &&& q.current is Some
                &&& q.current->0.attributes == e[4] + 0x100 * e[5]
                &&& q.current->0.name.len() == 0
                &&& q.current->0.data_length == 0
                &&& q.names_left == 0
                &&& q.files == p.files
            }
            &&& e[0] == 0xC0 && p.current is Some ==> {
                &&& q.current is Some
                &&& q.current->0.first_cluster == e[20] + 0x100 * e[21] + 0x1_0000 * e[22]
                    + 0x100_0000 * e[23]
                &&& q.current->0.data_length == e[24] + 0x100 * e[25] + 0x1_0000 * e[26] + 0x100_0000
                    * e[27] + 0x1_0000_0000 * e[28] + 0x100_0000_0000 * e[29] + 0x1_0000_0000_0000
                    * e[30] + 0x100_0000_0000_0000 * e[31]
                &&& q.current->0.no_fat_chain == (e[1] / 2 % 2 == 1)
                &&& q.current->0.name == p.current->0.name
                &&& q.current->0.attributes == p.current->0.attributes
                &&& 15 * (q.names_left - 1) < e[3] <= 15 * q.names_left
                &&& q.files == p.files
            }
            &&& e[0] == 0xC1 && p.current is Some ==> {
                let f = FileModel { name: name_extended(p.current->0.name, e, 0), ..p.current->0 };
                &&& p.names_left == 1 ==> q.files == p.files.push(f) && q.current is None
                &&& p.names_left != 1 ==> q.files == p.files && q.current == Some(f)
                &&& p.names_left > 1 ==> q.names_left == p.names_left - 1
            }
            &&& e[0] != 0 && e[0] != 0x85 && (e[0] != 0xC0 && e[0] != 0xC1 || p.current is None) ==> q == p
        }),
{
    let flags = e[1];
    assert((flags & 2 != 0) == (flags / 2 % 2 == 1)) by (bit_vector);
}

/// A name entry with `n` characters, then zeros, adds these characters to the
/// name, where it has room for them; one that is not ASCII is a question mark.
pub proof fn law_name_entry_adds_its_characters(name: Seq<char>, e: Seq<u8>, n: int, i: int)
    requires
        e.len() == 32,
        0 <= n <= 15,
        name.len() + n <= 63,
        forall|k: int| 0 <= k < n ==> #[trigger] le16(e, 2 + 2 * k) != 0,
        forall|k: int| n <= k < 15 ==> #[trigger] le16(e, 2 + 2 * k) == 0,
        0 <= i < n,
    ensures
        name_extended(name, e, 0).len() == name.len() + n,
        name.is_prefix_of(name_extended(name, e, 0)),
        ({
            let unit = e[2 + 2 * i] + 0x100 * e[3 + 2 * i];
            name_extended(name, e, 0)[name.len() + i] as int == if unit < 0x80 {
                unit
            } else {
                0x3F
            }
        }),
{
    lemma_name_tail(name, e, n, 0, i);
}

proof fn lemma_name_tail(name: Seq<char>, e: Seq<u8>, n: int, from: int, i: int)
    requires
        e.len() == 32,
        0 <= from <= 15,
        0 <= n <= 15,
        name.len() + (if from < n { n - from } else { 0 }) <= 63,
        forall|k: int| 0 <= k < n ==> #[trigger] le16(e, 2 + 2 * k) != 0,
        forall|k: int| n <= k < 15 ==> #[trigger] le16(e, 2 + 2 * k) == 0,
    ensures
        ({
            let r = name_extended(name, e, from);
            &&& r.len() == name.len() + (if from < n { n - from } else { 0 })
            &&& name.is_prefix_of(r)
            &&& from <= i < n ==> r[name.len() + i - from] as int == if le16(e, 2 + 2 * i) < 0x80 {
                le16(e, 2 + 2 * i)
            } else {
                0x3F
            }
        }),
    decreases 15 - from,
{
    if from < 15 {
        let c = le16(e, 2 + 2 * from);
        let more = if c != 0 && name.len() < 63 {
            name.push(super::dir::ascii_or_mark(c))
        } else {
            name
        };
        lemma_name_tail(more, e, n, from + 1, i);
        let r = name_extended(more, e, from + 1);
        assert(name_extended(name, e, from) == r);
        assert(name.is_prefix_of(more));
        assert forall|k: int| 0 <= k < name.len() implies name[k] == r[k] by {
            assert(more[k] == name[k]);
        }
        if from < n {
            assert(more.len() == name.len() + 1);
            assert(r[name.len() as int] == more[name.len() as int]);
        }
    }
}

/// Two names are the same if they are as long and every two characters are
/// equal, or the small and the capital form of one ASCII letter.
pub proof fn law_names_without_case(a: Seq<u8>, b: Seq<u8>)
    ensures
        same_name(a, b) <==> a.len() == b.len() && forall|i: int|
            0 <= i < a.len() ==> (#[trigger] a[i] == b[i] || (97 <= a[i] <= 122 && b[i] == a[i] - 32)
                || (97 <= b[i] <= 122 && a[i] == b[i] - 32)),
{
}

/// A name takes as many entries of 15 characters as it needs.
pub proof fn law_name_takes_entries(n: int)
    requires
        0 <= n,
    ensures
        n <= 15 * name_entries(n) < n + 15,
{
}

} // verus!
