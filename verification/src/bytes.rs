//! Multi-byte integers in byte buffers.

use vstd::prelude::*;

verus! {

/// The little-endian 16-bit integer at `at`.
pub open spec fn le16(s: Seq<u8>, at: int) -> int {
    s[at] + 256 * s[at + 1]
}

/// The little-endian 32-bit integer at `at`.
pub open spec fn le32(s: Seq<u8>, at: int) -> int {
    le16(s, at) + 0x1_0000 * le16(s, at + 2)
}

/// The little-endian 64-bit integer at `at`.
pub open spec fn le64(s: Seq<u8>, at: int) -> int {
    le32(s, at) + 0x1_0000_0000 * le32(s, at + 4)
}

/// The big-endian 32-bit integer at `at`.
pub open spec fn be32(s: Seq<u8>, at: int) -> int {
    0x100_0000 * s[at] + 0x1_0000 * s[at + 1] + 0x100 * s[at + 2] + s[at + 3]
}

/// The two bytes of a little-endian 16-bit integer.
pub open spec fn le16_bytes(v: u16) -> Seq<u8> {
    seq![(v % 256) as u8, (v / 256) as u8]
}

/// The four bytes of a little-endian 32-bit integer.
pub open spec fn le32_bytes(v: u32) -> Seq<u8> {
    le16_bytes((v % 0x1_0000) as u16) + le16_bytes((v / 0x1_0000) as u16)
}

/// The eight bytes of a little-endian 64-bit integer.
pub open spec fn le64_bytes(v: u64) -> Seq<u8> {
    le32_bytes((v % 0x1_0000_0000) as u32) + le32_bytes((v / 0x1_0000_0000) as u32)
}

/// Reads a little-endian 16-bit integer.
pub fn read_le16(s: &[u8], at: usize) -> (r: u16)
    requires
        at + 2 <= s@.len(),
    ensures
        r == le16(s@, at as int),
{
    s[at] as u16 + 256 * (s[at + 1] as u16)
}

/// Reads a little-endian 32-bit integer.
pub fn read_le32(s: &[u8], at: usize) -> (r: u32)
    requires
        at + 4 <= s@.len(),
    ensures
        r == le32(s@, at as int),
{
    assert(s@.len() == s.len());
    read_le16(s, at) as u32 + 0x1_0000 * (read_le16(s, at + 2) as u32)
}

/// Reads a little-endian 64-bit integer.
pub fn read_le64(s: &[u8], at: usize) -> (r: u64)
    requires
        at + 8 <= s@.len(),
    ensures
        r == le64(s@, at as int),
{
    assert(s@.len() == s.len());
    read_le32(s, at) as u64 + 0x1_0000_0000 * (read_le32(s, at + 4) as u64)
}

/// Reads a big-endian 32-bit integer.
pub fn read_be32(s: &[u8], at: usize) -> (r: u32)
    requires
        at + 4 <= s@.len(),
    ensures
        r == be32(s@, at as int),
{
    0x100_0000 * (s[at] as u32) + 0x1_0000 * (s[at + 1] as u32) + 0x100 * (s[at + 2] as u32)
        + s[at + 3] as u32
}

/// Appends a little-endian 16-bit integer.
pub fn push_le16(out: &mut Vec<u8>, v: u16)
    ensures
        final(out)@ == old(out)@ + le16_bytes(v),
{
    out.push((v % 256) as u8);
    out.push((v / 256) as u8);
}

/// Appends a little-endian 32-bit integer.
pub fn push_le32(out: &mut Vec<u8>, v: u32)
    ensures
        final(out)@ == old(out)@ + le32_bytes(v),
{
    push_le16(out, (v % 0x1_0000) as u16);
    push_le16(out, (v / 0x1_0000) as u16);
}

/// Appends a little-endian 64-bit integer.
pub fn push_le64(out: &mut Vec<u8>, v: u64)
    ensures
        final(out)@ == old(out)@ + le64_bytes(v),
{
    push_le32(out, (v % 0x1_0000_0000) as u32);
    push_le32(out, (v / 0x1_0000_0000) as u32);
}

/// Writes a little-endian 16-bit integer over two bytes.
pub fn put_le16(out: &mut Vec<u8>, at: usize, v: u16)
    requires
        at + 2 <= old(out)@.len(),
    ensures
        final(out)@ == spliced(old(out)@, at as int, le16_bytes(v)),
{
    assert(out@.len() == out.len());
    out.set(at, (v % 256) as u8);
    out.set(at + 1, (v / 256) as u8);
}

/// Writes a little-endian 32-bit integer over four bytes.
pub fn put_le32(out: &mut Vec<u8>, at: usize, v: u32)
    requires
        at + 4 <= old(out)@.len(),
    ensures
        final(out)@ == spliced(old(out)@, at as int, le32_bytes(v)),
{
    assert(out@.len() == out.len());
    put_le16(out, at, (v % 0x1_0000) as u16);
    put_le16(out, at + 2, (v / 0x1_0000) as u16);
}

/// Writes a little-endian 64-bit integer over eight bytes.
pub fn put_le64(out: &mut Vec<u8>, at: usize, v: u64)
    requires
        at + 8 <= old(out)@.len(),
    ensures
        final(out)@ == spliced(old(out)@, at as int, le64_bytes(v)),
{
    assert(out@.len() == out.len());
    put_le32(out, at, (v % 0x1_0000_0000) as u32);
    put_le32(out, at + 4, (v / 0x1_0000_0000) as u32);
}

/// `base` with the bytes from `at` on replaced by those of `piece`.
pub open spec fn spliced(base: Seq<u8>, at: int, piece: Seq<u8>) -> Seq<u8> {
    Seq::new(
        base.len(),
        |i: int| if at <= i < at + piece.len() { piece[i - at] } else { base[i] },
    )
}

/// Writes `piece` over the bytes from `at` on.
pub fn splice(base: &mut Vec<u8>, at: usize, piece: &[u8])
    requires
        at + piece@.len() <= old(base)@.len(),
    ensures
        final(base)@ == spliced(old(base)@, at as int, piece@),
{
    let mut i: usize = 0;
    while i < piece.len()
        invariant
            i <= piece@.len(),
            at + piece@.len() <= base@.len(),
            base@ =~= spliced(old(base)@, at as int, piece@.subrange(0, i as int)),
        decreases piece@.len() - i,
    {
        assert(base@.len() == base.len());
        base.set(at + i, piece[i]);
        i += 1;
    }
    assert(piece@.subrange(0, i as int) =~= piece@);
}

/// Whether two buffers hold the same bytes.
pub fn same_bytes(a: &[u8], b: &[u8]) -> (r: bool)
    ensures
        r == (a@ == b@),
{
    if a.len() != b.len() {
        return false;
    }
    let mut i: usize = 0;
    while i < a.len()
        invariant
            i <= a@.len(),
            a@.len() == b@.len(),
            forall|j: int| 0 <= j < i ==> a@[j] == b@[j],
        decreases a@.len() - i,
    {
        if a[i] != b[i] {
            return false;
        }
        i += 1;
    }
    assert(a@ =~= b@);
    true
}

/// Whether a buffer starts with the given bytes.
pub fn starts_with(a: &[u8], prefix: &[u8]) -> (r: bool)
    ensures
        r == prefix@.is_prefix_of(a@),
{
    if a.len() < prefix.len() {
        return false;
    }
    same_bytes(vstd::slice::slice_subrange(a, 0, prefix.len()), prefix)
}

/// `n` zero bytes.
pub open spec fn zeros(n: int) -> Seq<u8> {
    Seq::new(n as nat, |i: int| 0u8)
}

/// A buffer of `n` zero bytes.
pub fn zeroed(n: usize) -> (r: Vec<u8>)
    ensures
        r@ == zeros(n as int),
{
    let mut v: Vec<u8> = Vec::new();
    let mut i: usize = 0;
    while i < n
        invariant
            i <= n,
            v@ == zeros(i as int),
        decreases n - i,
    {
        v.push(0);
        i += 1;
    }
    v
}

/// What was written as a little-endian integer reads back as that integer.
pub proof fn lemma_le_round_trip(a: u16, b: u32, c: u64)
    ensures
        le16(le16_bytes(a), 0) == a,
        le32(le32_bytes(b), 0) == b,
        le64(le64_bytes(c), 0) == c,
{
}

/// Little-endian integers are read with their low byte first, big-endian ones
/// with it last.
pub proof fn law_byte_order_read(s: Seq<u8>, at: int)
    ensures
        le16(s, at) == s[at] + 0x100 * s[at + 1],
        le32(s, at) == s[at] + 0x100 * s[at + 1] + 0x1_0000 * s[at + 2] + 0x100_0000 * s[at + 3],
        le64(s, at) == s[at] + 0x100 * s[at + 1] + 0x1_0000 * s[at + 2] + 0x100_0000 * s[at + 3]
            + 0x1_0000_0000 * s[at + 4] + 0x100_0000_0000 * s[at + 5] + 0x1_0000_0000_0000 * s[at + 6]
            + 0x100_0000_0000_0000 * s[at + 7],
        be32(s, at) == s[at + 3] + 0x100 * s[at + 2] + 0x1_0000 * s[at + 1] + 0x100_0000 * s[at],
{
}

/// Little-endian integers are written with their low byte first: what the
/// bytes are worth, each 256 times the one before it, is the integer.
pub proof fn law_byte_order_written(a: u16, b: u32, c: u64)
    ensures
        le16_bytes(a).len() == 2,
        a == le16_bytes(a)[0] + 0x100 * le16_bytes(a)[1],
        le32_bytes(b).len() == 4,
        b == le32_bytes(b)[0] + 0x100 * le32_bytes(b)[1] + 0x1_0000 * le32_bytes(b)[2] + 0x100_0000
            * le32_bytes(b)[3],
        le64_bytes(c).len() == 8,
        c == le64_bytes(c)[0] + 0x100 * le64_bytes(c)[1] + 0x1_0000 * le64_bytes(c)[2] + 0x100_0000
            * le64_bytes(c)[3] + 0x1_0000_0000 * le64_bytes(c)[4] + 0x100_0000_0000 * le64_bytes(c)[5]
            + 0x1_0000_0000_0000 * le64_bytes(c)[6] + 0x100_0000_0000_0000 * le64_bytes(c)[7],
{
    lemma_le_round_trip(a, b, c);
    law_byte_order_read(le16_bytes(a), 0);
    law_byte_order_read(le32_bytes(b), 0);
    law_byte_order_read(le64_bytes(c), 0);
}

/// A piece that is put over others lies where it was put, and every byte
/// outside it stays.
pub proof fn law_splice_keeps_the_rest(base: Seq<u8>, at: int, piece: Seq<u8>)
    requires
        0 <= at,
        at + piece.len() <= base.len(),
    ensures
        spliced(base, at, piece) == base.take(at) + piece + base.skip(at + piece.len()),
{
}

/// Buffers of zeros hold zeros.
pub proof fn law_zeros(n: int, i: int)
    requires
        0 <= i < n,
    ensures
        zeros(n).len() == n,
        zeros(n)[i] == 0,
{
}

} // verus!
