//! The entry set of a new file.

use vstd::prelude::*;
use crate::bytes::{
    le16_bytes, le32_bytes, le64_bytes, push_le16, push_le32, push_le64, put_le16, spliced, zeros,
};
use super::dir::{
    to_upper, upper, DIR_ENTRY, ET_FILE, ET_NAME, ET_STREAM, FLAG_ALLOC_POSSIBLE, FLAG_NO_FAT_CHAIN,
};

verus! {

/// Timestamp of created files: 2026-07-17 08:00:00 UTC, as years since 1980,
/// month, day and hour in bits 25, 21, 16 and 11 up.
pub const TIMESTAMP: u32 = 46 * 0x200_0000 + 7 * 0x20_0000 + 17 * 0x1_0000 + 8 * 0x800;

/// Characters of a name in one name entry.
pub const NAME_CHARS: usize = 15;

/// The checksum one byte on: rotated right by one bit, the byte added.
pub open spec fn rotated(sum: int, b: u8) -> int {
    (sum / 2 + (sum % 2) * 0x8000 + b) % 0x1_0000
}

/// The checksum one byte on.
fn rotate_add(sum: u16, b: u8) -> (r: u16)
    ensures
        r == rotated(sum as int, b),
{
    let turned: u32 = sum as u32 / 2 + (sum as u32 % 2) * 0x8000 + b as u32;
    (turned % 0x1_0000) as u16
}

/// The checksum of the first `n` bytes of an entry set; the bytes of the
/// checksum field itself are skipped.
pub open spec fn checksum_of(set: Seq<u8>, n: int) -> int
    decreases n,
{
    if n <= 0 {
        0
    } else if n - 1 == 2 || n - 1 == 3 {
        checksum_of(set, n - 1)
    } else {
        rotated(checksum_of(set, n - 1), set[n - 1])
    }
}

/// The checksum of an entry set.
pub fn entry_set_checksum(set: &[u8]) -> (r: u16)
    ensures
        r == checksum_of(set@, set@.len() as int),
{
    let mut sum: u16 = 0;
    let mut i: usize = 0;
    while i < set.len()
        invariant
            i <= set@.len(),
            sum == checksum_of(set@, i as int),
        decreases set@.len() - i,
    {
        if i != 2 && i != 3 {
            sum = rotate_add(sum, set[i]);
        }
        i += 1;
    }
    sum
}

/// The hash of the first `n` characters of an up-cased ASCII name, over the
/// two bytes of each.
pub open spec fn hash_of(name: Seq<u8>, n: int) -> int
    decreases n,
{
    if n <= 0 {
        0
    } else {
        rotated(rotated(hash_of(name, n - 1), upper(name[n - 1])), 0)
    }
}

/// The hash of an ASCII name.
pub fn name_hash(name: &[u8]) -> (r: u16)
    ensures
        r == hash_of(name@, name@.len() as int),
{
    let mut sum: u16 = 0;
    let mut i: usize = 0;
    while i < name.len()
        invariant
            i <= name@.len(),
            sum == hash_of(name@, i as int),
        decreases name@.len() - i,
    {
        sum = rotate_add(rotate_add(sum, to_upper(name[i])), 0);
        i += 1;
    }
    sum
}

/// Number of name entries for a name of `n` characters.
pub open spec fn name_entries(n: int) -> int {
    (n + 14) / 15
}

/// The file entry of a set with `secondary` further entries, its checksum
/// still zero.
pub open spec fn file_entry(secondary: u8) -> Seq<u8> {
    seq![ET_FILE, secondary] + le16_bytes(0) + le16_bytes(0x20) + zeros(2) + le32_bytes(TIMESTAMP)
        + le32_bytes(TIMESTAMP) + le32_bytes(TIMESTAMP) + zeros(2) + seq![0x80u8, 0x80u8, 0x80u8]
        + zeros(7)
}

/// The stream entry of a contiguous file.
pub open spec fn stream_entry(name: Seq<u8>, len: u64, first: u32) -> Seq<u8> {
    seq![
        ET_STREAM,
        if len > 0 { FLAG_ALLOC_POSSIBLE | FLAG_NO_FAT_CHAIN } else { FLAG_ALLOC_POSSIBLE },
        0u8,
        name.len() as u8,
    ] + le16_bytes(hash_of(name, name.len() as int) as u16) + zeros(2) + le64_bytes(len) + zeros(4)
        + le32_bytes(first) + le64_bytes(len)
}

/// The `k`th name entry: 15 characters of two bytes, zero past the end.
pub open spec fn name_entry(name: Seq<u8>, k: int) -> Seq<u8> {
    Seq::new(
        DIR_ENTRY as nat,
        |i: int|
            if i == 0 {
                ET_NAME
            } else if i >= 2 && i % 2 == 0 && 15 * k + (i - 2) / 2 < name.len() {
                name[15 * k + (i - 2) / 2]
            } else {
                0u8
            },
    )
}

/// The first `k` name entries.
pub open spec fn name_part(name: Seq<u8>, k: int) -> Seq<u8>
    decreases k,
{
    if k <= 0 {
        Seq::empty()
    } else {
        name_part(name, k - 1) + name_entry(name, k - 1)
    }
}

/// The entry set, its checksum still zero.
pub open spec fn set_without_checksum(name: Seq<u8>, len: u64, first: u32) -> Seq<u8> {
    let k = name_entries(name.len() as int);
    file_entry((1 + k) as u8) + stream_entry(name, len, first) + name_part(name, k)
}

/// The entry set of a file of `len` bytes from cluster `first` on.
#[verifier::opaque]
pub open spec fn entry_set(name: Seq<u8>, len: u64, first: u32) -> Seq<u8> {
    let set = set_without_checksum(name, len, first);
    spliced(set, 2, le16_bytes(checksum_of(set, set.len() as int) as u16))
}

/// Appends `n` zero bytes.
fn push_zeros(out: &mut Vec<u8>, n: usize)
    ensures
        final(out)@ == old(out)@ + zeros(n as int),
{
    let mut i: usize = 0;
    while i < n
        invariant
            i <= n,
            out@ =~= old(out)@ + zeros(i as int),
        decreases n - i,
    {
        out.push(0);
        i += 1;
    }
}

/// Appends the `k`th name entry.
fn push_name_entry(out: &mut Vec<u8>, name: &[u8], k: usize)
    requires
        name@.len() <= 30,
        k <= 2,
    ensures
        final(out)@ == old(out)@ + name_entry(name@, k as int),
{
    out.push(ET_NAME);
    out.push(0);
    assert(out@ =~= old(out)@ + name_entry(name@, k as int).take(2));
    let mut i: usize = 0;
    while i < 15
        invariant
            i <= 15,
            k <= 2,
            name@.len() <= 30,
            out@ =~= old(out)@ + name_entry(name@, k as int).take(2 + 2 * i),
        decreases 15 - i,
    {
        let idx: usize = k * 15 + i;
        if idx < name.len() {
            out.push(name[idx]);
        } else {
            out.push(0);
        }
        out.push(0);
        i += 1;
    }
    assert(name_entry(name@, k as int).take(32) =~= name_entry(name@, k as int));
}

/// Builds the entry set of a file of `len` bytes from cluster `first` on.
pub fn build_entry_set(name: &[u8], len: u64, first: u32) -> (r: Vec<u8>)
    requires
        1 <= name@.len() <= 30,
    ensures
        r@ == entry_set(name@, len, first),
        r@.len() == (2 + name_entries(name@.len() as int)) * DIR_ENTRY,
{
    reveal(entry_set);
    let entries: usize = (name.len() + 14) / 15;
    let mut set: Vec<u8> = Vec::new();
    set.push(ET_FILE);
    set.push(1 + entries as u8);
    push_le16(&mut set, 0);
    push_le16(&mut set, 0x20);
    push_zeros(&mut set, 2);
    push_le32(&mut set, TIMESTAMP);
    push_le32(&mut set, TIMESTAMP);
    push_le32(&mut set, TIMESTAMP);
    push_zeros(&mut set, 2);
    set.push(0x80);
    set.push(0x80);
    set.push(0x80);
    push_zeros(&mut set, 7);
    assert(set@ =~= file_entry((1 + entries) as u8));
    set.push(ET_STREAM);
    set.push(if len > 0 { FLAG_ALLOC_POSSIBLE | FLAG_NO_FAT_CHAIN } else { FLAG_ALLOC_POSSIBLE });
    set.push(0);
    set.push(name.len() as u8);
    let hash: u16 = name_hash(name);
    push_le16(&mut set, hash);
    push_zeros(&mut set, 2);
    push_le64(&mut set, len);
    push_zeros(&mut set, 4);
    push_le32(&mut set, first);
    push_le64(&mut set, len);
    assert(set@ =~= file_entry((1 + entries) as u8) + stream_entry(name@, len, first));
    let ghost head = set@;
    let mut k: usize = 0;
    assert(head + name_part(name@, 0) =~= head);
    while k < entries
        invariant
            k <= entries <= 2,
            name@.len() <= 30,
            set@ == head + name_part(name@, k as int),
            set@.len() == head.len() + 32 * k,
        decreases entries - k,
    {
        push_name_entry(&mut set, name, k);
        assert(set@ =~= head + name_part(name@, k as int + 1));
        k += 1;
    }
    let checksum: u16 = entry_set_checksum(set.as_slice());
    put_le16(&mut set, 2, checksum);
    set
}

} // verus!
