//! Lines that are put together piece by piece in a buffer of fixed size, and
//! then written to the console in one go.

use vstd::prelude::*;
use vstd::string::StringSliceAdditionalSpecFns;
use vstd::utf8::{
    encode_scalar, encode_utf8, encode_utf8_valid_utf8, is_ascii_chars, is_ascii_chars_encode_utf8,
    valid_utf8,
};
use crate::inline::{
    text128, text128_new, text128_push_str, text128_str, text160, text160_new, text160_push_str,
    text160_str, text200, text200_new, text200_push_str, text200_str, text64, text64_new,
    text64_push_str, text64_str, text96, text96_new, text96_push_str, text96_str,
};
use crate::serial::{decimal, hex, push_hex_short, write_dec};
use crate::text::utf8_text;

verus! {

/// A line in a buffer of `cap` bytes.
#[verifier::ext_equal]
pub struct LineModel {
    pub bytes: Seq<u8>,
    pub cap: nat,
    /// A piece of the current write did not fit.
    pub ended: bool,
}

/// An empty line in a buffer of `cap` bytes.
pub open spec fn blank(cap: nat) -> LineModel {
    LineModel { bytes: Seq::empty(), cap, ended: false }
}

impl LineModel {
    /// The line with a piece added. A piece that does not fit is left out as a
    /// whole, and so is everything that follows it in the same write.
    pub open spec fn put(self, piece: Seq<u8>) -> LineModel {
        if self.ended || self.bytes.len() + piece.len() > self.cap {
            LineModel { ended: true, ..self }
        } else {
            LineModel { bytes: self.bytes + piece, ..self }
        }
    }

    /// The line when another write begins.
    pub open spec fn next_write(self) -> LineModel {
        LineModel { ended: false, ..self }
    }
}

/// The sizes of the buffers that lines are put together in.
#[derive(Debug, Clone, Copy, PartialEq, Eq, Structural)]
pub enum LineSize {
    Bytes64,
    Bytes96,
    Bytes128,
    Bytes160,
    Bytes200,
}

impl LineSize {
    /// The size in bytes.
    pub open spec fn bytes(self) -> nat {
        match self {
            LineSize::Bytes64 => 64,
            LineSize::Bytes96 => 96,
            LineSize::Bytes128 => 128,
            LineSize::Bytes160 => 160,
            LineSize::Bytes200 => 200,
        }
    }
}

/// The buffer of a line.
enum Buffer {
    Bytes64(heapless::String<64>),
    Bytes96(heapless::String<96>),
    Bytes128(heapless::String<128>),
    Bytes160(heapless::String<160>),
    Bytes200(heapless::String<200>),
}

impl Buffer {
    spec fn chars(self) -> Seq<char> {
        match self {
            Buffer::Bytes64(s) => text64(s),
            Buffer::Bytes96(s) => text96(s),
            Buffer::Bytes128(s) => text128(s),
            Buffer::Bytes160(s) => text160(s),
            Buffer::Bytes200(s) => text200(s),
        }
    }

    spec fn cap(self) -> nat {
        match self {
            Buffer::Bytes64(_) => 64,
            Buffer::Bytes96(_) => 96,
            Buffer::Bytes128(_) => 128,
            Buffer::Bytes160(_) => 160,
            Buffer::Bytes200(_) => 200,
        }
    }

    fn new(size: LineSize) -> (r: Self)
        ensures
            r.chars() == Seq::<char>::empty(),
            r.cap() == size.bytes(),
    {
        match size {
            LineSize::Bytes64 => Buffer::Bytes64(text64_new()),
            LineSize::Bytes96 => Buffer::Bytes96(text96_new()),
            LineSize::Bytes128 => Buffer::Bytes128(text128_new()),
            LineSize::Bytes160 => Buffer::Bytes160(text160_new()),
            LineSize::Bytes200 => Buffer::Bytes200(text200_new()),
        }
    }

    /// Adds a string if it fits.
    fn push_str(&mut self, t: &str) -> (r: bool)
        ensures
            final(self).cap() == old(self).cap(),
            r == (encode_utf8(old(self).chars()).len() + encode_utf8(t@).len() <= old(self).cap()),
            final(self).chars() == if r { old(self).chars() + t@ } else { old(self).chars() },
    {
        match self {
            Buffer::Bytes64(s) => text64_push_str(s, t),
            Buffer::Bytes96(s) => text96_push_str(s, t),
            Buffer::Bytes128(s) => text128_push_str(s, t),
            Buffer::Bytes160(s) => text160_push_str(s, t),
            Buffer::Bytes200(s) => text200_push_str(s, t),
        }
    }

    fn as_str(&self) -> (r: &str)
        ensures
            r@ == self.chars(),
    {
        match self {
            Buffer::Bytes64(s) => text64_str(s),
            Buffer::Bytes96(s) => text96_str(s),
            Buffer::Bytes128(s) => text128_str(s),
            Buffer::Bytes160(s) => text160_str(s),
            Buffer::Bytes200(s) => text200_str(s),
        }
    }
}

/// A line in a buffer of fixed size.
pub struct BoundedLine {
    buffer: Buffer,
    ended: bool,
}

impl View for BoundedLine {
    type V = LineModel;

    closed spec fn view(&self) -> LineModel {
        LineModel {
            bytes: encode_utf8(self.buffer.chars()),
            cap: self.buffer.cap(),
            ended: self.ended,
        }
    }
}

impl BoundedLine {
    /// An empty line in a buffer of the given size.
    pub fn new(size: LineSize) -> (r: Self)
        ensures
            r@ == blank(size.bytes()),
    {
        BoundedLine { buffer: Buffer::new(size), ended: false }
    }

    /// Adds a string.
    pub fn text(&mut self, s: &str)
        ensures
            final(self)@ == old(self)@.put(s.spec_bytes()),
    {
        if !self.ended {
            let fits = self.buffer.push_str(s);
            proof {
                lemma_encode_joined(old(self).buffer.chars(), s@);
            }
            if !fits {
                self.ended = true;
            }
        }
    }

    /// Adds digits.
    fn digits(&mut self, d: &[u8])
        requires
            forall|i: int| 0 <= i < d@.len() ==> #[trigger] d@[i] < 0x80,
        ensures
            final(self)@ == old(self)@.put(d@),
    {
        proof {
            lemma_ascii_is_text(d@);
        }
        if let Some(s) = utf8_text(d) {
            self.text(s);
        }
    }

    /// Adds a decimal number.
    pub fn dec(&mut self, n: u64)
        ensures
            final(self)@ == old(self)@.put(decimal(n as nat)),
    {
        let mut d: Vec<u8> = Vec::new();
        write_dec(&mut d, n);
        assert(d@ =~= decimal(n as nat));
        proof {
            lemma_decimal_is_ascii(n as nat);
        }
        self.digits(d.as_slice());
    }

    /// Adds a hexadecimal number.
    pub fn hex(&mut self, n: u64)
        ensures
            final(self)@ == old(self)@.put(hex(n as nat)),
    {
        let mut d: Vec<u8> = Vec::new();
        push_hex_short(&mut d, n);
        assert(d@ =~= hex(n as nat));
        proof {
            lemma_hex_is_ascii(n as nat);
        }
        self.digits(d.as_slice());
    }

    /// Another write begins.
    pub fn next_write(&mut self)
        ensures
            final(self)@ == old(self)@.next_write(),
    {
        self.ended = false;
    }

    /// What the line holds.
    pub fn into_bytes(self) -> (r: Vec<u8>)
        ensures
            r@ == self@.bytes,
    {
        let mut out: Vec<u8> = Vec::new();
        out.extend_from_slice(self.buffer.as_str().as_bytes());
        assert(out@ =~= self@.bytes);
        out
    }
}

/// The encoding of two strings in a row.
proof fn lemma_encode_joined(a: Seq<char>, b: Seq<char>)
    ensures
        encode_utf8(a + b) == encode_utf8(a) + encode_utf8(b),
    decreases a.len(),
{
    if a.len() == 0 {
        assert(a + b =~= b);
        assert(encode_utf8(a) + encode_utf8(b) =~= encode_utf8(b));
    } else {
        let t = a.drop_first();
        assert((a + b).drop_first() =~= t + b);
        lemma_encode_joined(t, b);
        let c = encode_scalar(a[0] as u32);
        assert(c + (encode_utf8(t) + encode_utf8(b)) =~= (c + encode_utf8(t)) + encode_utf8(b));
    }
}

/// ASCII bytes are a string.
proof fn lemma_ascii_is_text(d: Seq<u8>)
    requires
        forall|i: int| 0 <= i < d.len() ==> #[trigger] d[i] < 0x80,
    ensures
        valid_utf8(d),
{
    let chars = Seq::new(d.len(), |i: int| d[i] as char);
    assert(is_ascii_chars(chars));
    is_ascii_chars_encode_utf8(chars);
    assert(encode_utf8(chars) =~= d) by {
        assert forall|i: int| 0 <= i < d.len() implies encode_utf8(chars)[i] == d[i] by {
            assert(chars[i] as u8 == encode_utf8(chars)[i]);
        }
    }
    encode_utf8_valid_utf8(chars);
}

proof fn lemma_decimal_is_ascii(n: nat)
    ensures
        forall|i: int| 0 <= i < decimal(n).len() ==> #[trigger] decimal(n)[i] < 0x80,
    decreases n,
{
    if n >= 10 {
        let rest = decimal(n / 10);
        lemma_decimal_is_ascii(n / 10);
        assert forall|i: int| 0 <= i < decimal(n).len() implies #[trigger] decimal(n)[i] < 0x80 by {
            if i < rest.len() {
                assert(decimal(n)[i] == rest[i]);
            }
        }
    }
}

proof fn lemma_hex_is_ascii(n: nat)
    ensures
        forall|i: int| 0 <= i < hex(n).len() ==> #[trigger] hex(n)[i] < 0x80,
    decreases n,
{
    if n >= 16 {
        let rest = hex(n / 16);
        lemma_hex_is_ascii(n / 16);
        assert forall|i: int| 0 <= i < hex(n).len() implies #[trigger] hex(n)[i] < 0x80 by {
            if i < rest.len() {
                assert(hex(n)[i] == rest[i]);
            }
        }
    }
}

/// A line never outgrows its buffer, and two pieces that fit are both in it,
/// in order.
pub proof fn law_pieces_that_fit(line: LineModel, a: Seq<u8>, b: Seq<u8>)
    requires
        line.bytes.len() <= line.cap,
    ensures
        line.put(a).bytes.len() <= line.cap,
        line.bytes.is_prefix_of(line.put(a).bytes),
        !line.ended && line.bytes.len() + a.len() + b.len() <= line.cap ==> line.put(a).put(b).bytes
            == line.bytes + (a + b),
{
    assert(line.put(a).put(b).bytes =~= line.bytes + (a + b) || line.ended || line.bytes.len() + a.len()
        + b.len() > line.cap);
}

/// A piece that does not fit is left out whole, and so is what follows it in
/// the same write; the next write goes on.
pub proof fn law_pieces_that_do_not_fit(line: LineModel, a: Seq<u8>, b: Seq<u8>)
    ensures
        line.bytes.len() + a.len() > line.cap ==> line.put(a).bytes == line.bytes && line.put(a).put(
            b,
        ).bytes == line.bytes,
        line.ended ==> line.put(a).bytes == line.bytes,
        line.bytes.len() + b.len() <= line.cap ==> line.next_write().put(b).bytes == line.bytes + b,
        line.put(a).cap == line.cap,
{
}

/// The sizes of lines.
pub proof fn law_line_sizes()
    ensures
        LineSize::Bytes64.bytes() == 64,
        LineSize::Bytes96.bytes() == 96,
        LineSize::Bytes128.bytes() == 128,
        LineSize::Bytes160.bytes() == 160,
        LineSize::Bytes200.bytes() == 200,
        blank(64).bytes.len() == 0 && blank(64).cap == 64 && !blank(64).ended,
{
}

} // verus!
