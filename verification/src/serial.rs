//! Console text: strings and numbers as the bytes to send to the serial port.

use vstd::prelude::*;
use vstd::string::StringSliceAdditionalSpecFns;

verus! {

/// The bytes of a string that are sent: all but carriage returns.
pub open spec fn sent(s: Seq<u8>) -> Seq<u8> {
    s.filter(|b: u8| b != 13)
}

/// Writes a string to the console.
pub fn write_str(out: &mut Vec<u8>, s: &str)
    ensures
        final(out)@ == old(out)@ + sent(s.spec_bytes()),
{
    let bytes = s.as_bytes();
    let ghost p = |b: u8| b != 13;
    let mut i: usize = 0;
    assert(bytes@.take(0).filter(p) =~= Seq::<u8>::empty()) by {
        reveal(Seq::filter);
    }
    while i < bytes.len()
        invariant
            i <= bytes@.len(),
            p == (|b: u8| b != 13),
            out@ =~= old(out)@ + bytes@.take(i as int).filter(p),
        decreases bytes@.len() - i,
    {
        let b: u8 = bytes[i];
        proof {
            reveal(Seq::filter);
            assert(bytes@.take(i as int + 1).drop_last() =~= bytes@.take(i as int));
        }
        if b != 13 {
            out.push(b);
        }
        i += 1;
    }
    assert(bytes@.take(i as int) =~= bytes@);
}

/// The decimal digits of a number.
pub open spec fn decimal(n: nat) -> Seq<u8>
    decreases n,
{
    if n < 10 {
        seq![(48 + n) as u8]
    } else {
        decimal(n / 10).push((48 + n % 10) as u8)
    }
}

/// Writes a decimal number to the console.
pub fn write_dec(out: &mut Vec<u8>, value: u64)
    ensures
        final(out)@ == old(out)@ + decimal(value as nat),
    decreases value,
{
    if value >= 10 {
        write_dec(out, value / 10);
    }
    out.push(48 + (value % 10) as u8);
    assert(out@ =~= old(out)@ + decimal(value as nat));
}

/// The hexadecimal digit of a number below 16.
pub open spec fn hex_digit(d: int) -> u8 {
    if d < 10 {
        (48 + d) as u8
    } else {
        (97 + d - 10) as u8
    }
}

/// The hexadecimal digits of a number, without leading zeros.
pub open spec fn hex(n: nat) -> Seq<u8>
    decreases n,
{
    if n < 16 {
        seq![hex_digit(n as int)]
    } else {
        hex(n / 16).push(hex_digit(n as int % 16))
    }
}

/// Writes a number in hexadecimal, without leading zeros.
pub fn push_hex_short(out: &mut Vec<u8>, value: u64)
    ensures
        final(out)@ == old(out)@ + hex(value as nat),
    decreases value,
{
    if value >= 16 {
        push_hex_short(out, value / 16);
    }
    let d: u8 = (value % 16) as u8;
    out.push(if d < 10 { 48 + d } else { 97 + (d - 10) });
    assert(out@ =~= old(out)@ + hex(value as nat));
}

/// The last `n` hexadecimal digits of a number.
pub open spec fn hex_digits(value: int, n: nat) -> Seq<u8>
    decreases n,
{
    if n == 0 {
        Seq::empty()
    } else {
        hex_digits(value / 16, (n - 1) as nat).push(hex_digit(value % 16))
    }
}

/// Writes the last `n` hexadecimal digits of a number.
pub fn write_hex_digits(out: &mut Vec<u8>, value: u64, n: u32)
    ensures
        final(out)@ == old(out)@ + hex_digits(value as int, n as nat),
    decreases n,
{
    if n > 0 {
        write_hex_digits(out, value / 16, n - 1);
        let d: u8 = (value % 16) as u8;
        out.push(if d < 10 { 48 + d } else { 97 + (d - 10) });
    }
    assert(out@ =~= old(out)@ + hex_digits(value as int, n as nat));
}

/// Writes a number as 16 hexadecimal digits, without a prefix.
pub fn write_hex(out: &mut Vec<u8>, value: u64)
    ensures
        final(out)@ == old(out)@ + hex_digits(value as int, 16),
{
    write_hex_digits(out, value, 16);
}

/// Writes a byte as two hexadecimal digits.
pub fn write_hex_byte(out: &mut Vec<u8>, value: u8)
    ensures
        final(out)@ == old(out)@ + hex_digits(value as int, 2),
{
    write_hex_digits(out, value as u64, 2);
}

/// Writes a line to the console.
pub fn write_line(out: &mut Vec<u8>, s: &str)
    ensures
        final(out)@ == old(out)@ + sent(s.spec_bytes()) + seq![10u8],
{
    write_str(out, s);
    out.push(10);
}

/// Text with spaces behind it, up to `width` bytes.
pub open spec fn padded(s: Seq<u8>, width: nat) -> Seq<u8> {
    if s.len() < width {
        s + Seq::new((width - s.len()) as nat, |i: int| 32u8)
    } else {
        s
    }
}

/// Writes ASCII text with spaces behind it, up to `width` bytes.
pub fn write_padded(out: &mut Vec<u8>, s: &str, width: usize)
    ensures
        final(out)@ == old(out)@ + padded(s.spec_bytes(), width as nat),
{
    let bytes = s.as_bytes();
    out.extend_from_slice(bytes);
    let mut n: usize = bytes.len();
    while n < width
        invariant
            bytes@ == s.spec_bytes(),
            bytes@.len() <= n,
            n <= width || n == bytes@.len(),
            out@ =~= old(out)@ + padded(s.spec_bytes(), n as nat),
        decreases width - n,
    {
        out.push(32);
        n += 1;
    }
}

/// The mark of a check: a tick, or a cross.
pub open spec fn mark(good: bool) -> Seq<u8> {
    if good {
        "\u{2713}".spec_bytes()
    } else {
        "\u{2717}".spec_bytes()
    }
}

/// Writes the mark of a check.
pub fn write_mark(out: &mut Vec<u8>, good: bool)
    ensures
        final(out)@ == old(out)@ + mark(good),
{
    let s: &str = if good {
        "\u{2713}"
    } else {
        "\u{2717}"
    };
    out.extend_from_slice(s.as_bytes());
    assert(out@ =~= old(out)@ + mark(good));
}

/// The number that decimal digits stand for.
pub open spec fn decimal_value(digits: Seq<u8>) -> int
    decreases digits.len(),
{
    if digits.len() == 0 {
        0
    } else {
        decimal_value(digits.drop_last()) * 10 + digits.last() - 48
    }
}

/// The decimal digits of a number stand for the number, and the first is not
/// zero unless it is the only one.
pub proof fn law_decimal_digits(n: nat)
    ensures
        decimal_value(decimal(n)) == n,
        decimal(n).len() > 0,
        n >= 10 ==> decimal(n)[0] != 48,
        forall|i: int| 0 <= i < decimal(n).len() ==> 48 <= #[trigger] decimal(n)[i] <= 57,
    decreases n,
{
    let d = decimal(n);
    if n >= 10 {
        law_decimal_digits(n / 10);
        assert(d.drop_last() =~= decimal(n / 10));
        if n / 10 < 10 {
            assert(decimal(n / 10)[0] == 48 + n / 10);
        }
    } else {
        assert(d.drop_last() =~= Seq::<u8>::empty());
        assert(decimal_value(d.drop_last()) == 0);
    }
}

/// What the console is sent is the text without carriage returns, its other
/// bytes in their order.
pub proof fn law_only_carriage_returns_are_dropped(a: Seq<u8>, b: u8)
    ensures
        sent(Seq::empty()) == Seq::<u8>::empty(),
        b == 13 ==> sent(a.push(b)) == sent(a),
        b != 13 ==> sent(a.push(b)) == sent(a).push(b),
{
    reveal(Seq::filter);
    assert(a.push(b).drop_last() =~= a);
}

/// What hexadecimal digits stand for.
pub open spec fn hex_value(digits: Seq<u8>) -> int
    decreases digits.len(),
{
    if digits.len() == 0 {
        0
    } else {
        let d = digits.last();
        hex_value(digits.drop_last()) * 16 + (if d <= 57 {
            d - 48
        } else {
            d - 87
        })
    }
}

/// Hexadecimal digits are 0 to 9 and a to f; they stand for the number, and
/// the first is not zero unless it is the only one.
pub proof fn law_hex_digits(n: nat)
    ensures
        hex_value(hex(n)) == n,
        hex(n).len() > 0,
        n >= 16 ==> hex(n)[0] != 48,
        forall|i: int|
            0 <= i < hex(n).len() ==> 48 <= #[trigger] hex(n)[i] <= 57 || 97 <= hex(n)[i] <= 102,
    decreases n,
{
    if n >= 16 {
        law_hex_digits(n / 16);
        assert(hex(n).drop_last() =~= hex(n / 16));
        assert(hex(n)[0] == hex(n / 16)[0]);
        if n / 16 < 16 {
            assert(hex(n / 16)[0] != 48);
        }
    } else {
        assert(hex(n).drop_last() =~= Seq::empty());
        assert(hex_value(Seq::<u8>::empty()) == 0);
    }
}

/// A fixed number of hexadecimal digits stands for the low digits of the
/// number.
pub proof fn law_fixed_hex_digits(value: int, n: nat, limit: int)
    requires
        0 <= value < limit,
        limit == vstd::arithmetic::power::pow(16, n),
    ensures
        hex_digits(value, n).len() == n,
        hex_value(hex_digits(value, n)) == value,
        forall|i: int|
            0 <= i < n ==> 48 <= #[trigger] hex_digits(value, n)[i] <= 57 || 97 <= hex_digits(value, n)[i]
                <= 102,
    decreases n,
{
    vstd::arithmetic::power::lemma_pow0(16);
    if n > 0 {
        let m = (n - 1) as nat;
        vstd::arithmetic::power::lemma_pow1(16);
        vstd::arithmetic::power::lemma_pow_adds(16, m, 1);
        let less = vstd::arithmetic::power::pow(16, m);
        assert(value / 16 < less);
        law_fixed_hex_digits(value / 16, m, less);
        assert(hex_digits(value, n).drop_last() =~= hex_digits(value / 16, m));
    }
}

/// Texts are filled up with spaces to their width, and never cut.
pub proof fn law_padding(s: Seq<u8>, width: nat, i: int)
    ensures
        s.is_prefix_of(padded(s, width)),
        s.len() >= width ==> padded(s, width) == s,
        s.len() < width ==> padded(s, width).len() == width,
        s.len() <= i < padded(s, width).len() ==> padded(s, width)[i] == 32,
{
}

/// Good and bad have marks of their own.
pub proof fn law_marks_differ()
    ensures
        mark(true) == "\u{2713}".spec_bytes(),
        mark(false) == "\u{2717}".spec_bytes(),
{
}

} // verus!
