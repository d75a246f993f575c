//! USB HID boot protocol: keyboard and mouse reports.
//!
//! A keyboard report is 8 bytes: modifier keys, a reserved byte and up to six
//! keycodes. A mouse report is 3 or 4 bytes: buttons, X and Y movement, and
//! optionally the wheel.

use vstd::prelude::*;
use vstd::string::StringSliceAdditionalSpecFns;
use crate::inline::{keys6, keys6_new, keys6_push, keys6_slice};
use crate::serial::{decimal, hex_digits, write_dec, write_hex_byte, write_hex_digits};

verus! {

/// Keyboard boot protocol report.
#[derive(Clone, Copy)]
pub struct KeyboardReport {
    /// Modifier keys (bit field).
    pub modifiers: u8,
    pub reserved: u8,
    /// Up to six pressed keys (usage IDs).
    pub keys: [u8; 6],
}

pub const MOD_LCTRL: u8 = 0x01;

pub const MOD_LSHIFT: u8 = 0x02;

pub const MOD_LALT: u8 = 0x04;

pub const MOD_LMETA: u8 = 0x08;

pub const MOD_RCTRL: u8 = 0x10;

pub const MOD_RSHIFT: u8 = 0x20;

pub const MOD_RALT: u8 = 0x40;

pub const MOD_RMETA: u8 = 0x80;

impl Default for KeyboardReport {
    fn default() -> (r: Self)
        ensures
            r.modifiers == 0,
            r.reserved == 0,
            r.keys@ =~= Seq::new(6, |i: int| 0u8),
    {
        KeyboardReport { modifiers: 0, reserved: 0, keys: [0; 6] }
    }
}

/// The pressed ones of the first `n` keys, each after the first place with a
/// space before it.
pub open spec fn keys_text(keys: Seq<u8>, n: int) -> Seq<u8>
    decreases n,
{
    if n <= 0 {
        Seq::empty()
    } else if keys[n - 1] == 0 {
        keys_text(keys, n - 1)
    } else {
        keys_text(keys, n - 1) + (if n > 1 {
            " ".spec_bytes()
        } else {
            Seq::empty()
        }) + "0x".spec_bytes() + hex_digits(keys[n - 1] as int, 2)
    }
}

/// A keyboard report in words.
pub open spec fn keyboard_text(modifiers: u8, keys: Seq<u8>) -> Seq<u8> {
    if modifiers == 0 && (forall|i: int| 0 <= i < keys.len() ==> keys[i] == 0) {
        "KeyboardReport: [no keys]".spec_bytes()
    } else {
        "KeyboardReport: mods=0x".spec_bytes() + hex_digits(modifiers as int, 2) + " keys=[".spec_bytes()
            + keys_text(keys, keys.len() as int) + "]".spec_bytes()
    }
}

impl KeyboardReport {
    /// The report in words.
    pub fn describe(&self) -> (r: Vec<u8>)
        ensures
            r@ == keyboard_text(self.modifiers, self.keys@),
    {
        let mut pressed = false;
        let mut list: Vec<u8> = Vec::new();
        let mut i: usize = 0;
        while i < 6
            invariant
                i <= 6,
                pressed == exists|k: int| 0 <= k < i && self.keys@[k] != 0,
                list@ =~= keys_text(self.keys@, i as int),
            decreases 6 - i,
        {
            let k: u8 = self.keys[i];
            if k != 0 {
                pressed = true;
                if i > 0 {
                    list.extend_from_slice(" ".as_bytes());
                }
                list.extend_from_slice("0x".as_bytes());
                write_hex_byte(&mut list, k);
                assert(self.keys@[i as int] != 0);
            }
            i += 1;
        }
        let mut out: Vec<u8> = Vec::new();
        if !pressed && self.modifiers == 0 {
            out.extend_from_slice("KeyboardReport: [no keys]".as_bytes());
        } else {
            out.extend_from_slice("KeyboardReport: mods=0x".as_bytes());
            write_hex_byte(&mut out, self.modifiers);
            out.extend_from_slice(" keys=[".as_bytes());
            out.append(&mut list);
            out.extend_from_slice("]".as_bytes());
        }
        assert(out@ =~= keyboard_text(self.modifiers, self.keys@));
        out
    }

    /// The key is among the pressed ones.
    pub open spec fn holds(self, usage: u8) -> bool {
        self.keys@.contains(usage)
    }

    /// One of the modifiers of `mask` is pressed.
    pub open spec fn modified(self, mask: u8) -> bool {
        self.modifiers & mask != 0
    }

    /// Parses an 8-byte boot protocol report.
    pub fn from_bytes(buf: &[u8; 8]) -> (r: Self)
        ensures
            r.modifiers == buf@[0],
            r.reserved == buf@[1],
            r.keys@ =~= buf@.subrange(2, 8),
    {
        KeyboardReport {
            modifiers: buf[0],
            reserved: buf[1],
            keys: [buf[2], buf[3], buf[4], buf[5], buf[6], buf[7]],
        }
    }

    /// Whether a key is pressed.
    pub fn has_key(&self, usage: u8) -> (r: bool)
        ensures
            r == self.holds(usage),
    {
        let mut i: usize = 0;
        while i < 6
            invariant
                i <= 6,
                forall|j: int| 0 <= j < i ==> self.keys@[j] != usage,
            decreases 6 - i,
        {
            if self.keys[i] == usage {
                assert(self.keys@[i as int] == usage);
                return true;
            }
            i += 1;
        }
        false
    }

    /// Whether a shift key is pressed.
    pub fn is_shift_pressed(&self) -> (r: bool)
        ensures
            r == self.modified(MOD_LSHIFT | MOD_RSHIFT),
    {
        self.modifiers & (MOD_LSHIFT | MOD_RSHIFT) != 0
    }

    /// Whether a control key is pressed.
    pub fn is_ctrl_pressed(&self) -> (r: bool)
        ensures
            r == self.modified(MOD_LCTRL | MOD_RCTRL),
    {
        self.modifiers & (MOD_LCTRL | MOD_RCTRL) != 0
    }

    /// Whether an alt key is pressed.
    pub fn is_alt_pressed(&self) -> (r: bool)
        ensures
            r == self.modified(MOD_LALT | MOD_RALT),
    {
        self.modifiers & (MOD_LALT | MOD_RALT) != 0
    }

    /// Whether a meta key is pressed.
    pub fn is_meta_pressed(&self) -> (r: bool)
        ensures
            r == self.modified(MOD_LMETA | MOD_RMETA),
    {
        self.modifiers & (MOD_LMETA | MOD_RMETA) != 0
    }

    /// The first pressed key's usage ID (0 if none).
    pub fn first_key(&self) -> (r: u8)
        ensures
            r != 0 ==> exists|i: int|
                0 <= i < 6 && #[trigger] self.keys@[i] == r && forall|j: int|
                    0 <= j < i ==> #[trigger] self.keys@[j] == 0,
            r == 0 ==> forall|i: int| 0 <= i < 6 ==> #[trigger] self.keys@[i] == 0,
    {
        let mut i: usize = 0;
        while i < 6
            invariant
                i <= 6,
                forall|j: int| 0 <= j < i ==> #[trigger] self.keys@[j] == 0,
            decreases 6 - i,
        {
            if self.keys[i] != 0 {
                assert(self.keys@[i as int] != 0);
                return self.keys[i];
            }
            i += 1;
        }
        0
    }
}

/// The character at place `i` of a row of keys.
pub open spec fn on_row(shift: bool, shifted: Seq<char>, plain: Seq<char>, i: int) -> Option<char> {
    Some(if shift { shifted[i] } else { plain[i] })
}

/// The character of a key: the rows of the keyboard in the order of their
/// usage IDs, the control characters, and the keypad.
pub open spec fn ascii_of_usage(usage: u8, shift: bool) -> Option<char> {
    if 0x04 <= usage <= 0x1D {
        on_row(shift, "ABCDEFGHIJKLMNOPQRSTUVWXYZ"@, "abcdefghijklmnopqrstuvwxyz"@, usage - 0x04)
    } else if 0x1E <= usage <= 0x27 {
        on_row(shift, "!@#$%^&*()"@, "1234567890"@, usage - 0x1E)
    } else if usage == 0x28 {
        Some('\n')
    } else if usage == 0x2A {
        Some('\x08')
    } else if usage == 0x2B {
        Some('\t')
    } else if usage == 0x2C {
        Some(' ')
    } else if 0x2D <= usage <= 0x31 {
        on_row(shift, "_+{}|"@, "-=[]\\"@, usage - 0x2D)
    } else if 0x33 <= usage <= 0x38 {
        on_row(shift, ":\"~<>?"@, ";'`,./"@, usage - 0x33)
    } else if usage == 0x4C {
        Some('\x7F')
    } else if 0x59 <= usage <= 0x63 {
        Some("1234567890."@[usage - 0x59])
    } else if usage == 0x67 {
        Some('=')
    } else {
        None
    }
}

/// Maps a keyboard usage ID to an ASCII character, given the shift state;
/// `None` for keys without one.
#[verifier::rlimit(60)]
pub fn hid_usage_to_ascii(usage: u8, shift_pressed: bool) -> (r: Option<char>)
    ensures
        r == ascii_of_usage(usage, shift_pressed),
{
    proof {
        reveal_strlit("ABCDEFGHIJKLMNOPQRSTUVWXYZ");
        reveal_strlit("abcdefghijklmnopqrstuvwxyz");
        reveal_strlit("!@#$%^&*()");
        reveal_strlit("1234567890");
        reveal_strlit("_+{}|");
        reveal_strlit("-=[]\\");
        reveal_strlit(":\"~<>?");
        reveal_strlit(";'`,./");
        reveal_strlit("1234567890.");
    }
    match usage {
        0x04 => Some(if shift_pressed { 'A' } else { 'a' }),
        0x05 => Some(if shift_pressed { 'B' } else { 'b' }),
        0x06 => Some(if shift_pressed { 'C' } else { 'c' }),
        0x07 => Some(if shift_pressed { 'D' } else { 'd' }),
        0x08 => Some(if shift_pressed { 'E' } else { 'e' }),
        0x09 => Some(if shift_pressed { 'F' } else { 'f' }),
        0x0A => Some(if shift_pressed { 'G' } else { 'g' }),
        0x0B => Some(if shift_pressed { 'H' } else { 'h' }),
        0x0C => Some(if shift_pressed { 'I' } else { 'i' }),
        0x0D => Some(if shift_pressed { 'J' } else { 'j' }),
        0x0E => Some(if shift_pressed { 'K' } else { 'k' }),
        0x0F => Some(if shift_pressed { 'L' } else { 'l' }),
        0x10 => Some(if shift_pressed { 'M' } else { 'm' }),
        0x11 => Some(if shift_pressed { 'N' } else { 'n' }),
        0x12 => Some(if shift_pressed { 'O' } else { 'o' }),
        0x13 => Some(if shift_pressed { 'P' } else { 'p' }),
        0x14 => Some(if shift_pressed { 'Q' } else { 'q' }),
        0x15 => Some(if shift_pressed { 'R' } else { 'r' }),
        0x16 => Some(if shift_pressed { 'S' } else { 's' }),
        0x17 => Some(if shift_pressed { 'T' } else { 't' }),
        0x18 => Some(if shift_pressed { 'U' } else { 'u' }),
        0x19 => Some(if shift_pressed { 'V' } else { 'v' }),
        0x1A => Some(if shift_pressed { 'W' } else { 'w' }),
        0x1B => Some(if shift_pressed { 'X' } else { 'x' }),
        0x1C => Some(if shift_pressed { 'Y' } else { 'y' }),
        0x1D => Some(if shift_pressed { 'Z' } else { 'z' }),
        0x1E => Some(if shift_pressed { '!' } else { '1' }),
        0x1F => Some(if shift_pressed { '@' } else { '2' }),
        0x20 => Some(if shift_pressed { '#' } else { '3' }),
        0x21 => Some(if shift_pressed { '$' } else { '4' }),
        0x22 => Some(if shift_pressed { '%' } else { '5' }),
        0x23 => Some(if shift_pressed { '^' } else { '6' }),
        0x24 => Some(if shift_pressed { '&' } else { '7' }),
        0x25 => Some(if shift_pressed { '*' } else { '8' }),
        0x26 => Some(if shift_pressed { '(' } else { '9' }),
        0x27 => Some(if shift_pressed { ')' } else { '0' }),
        0x28 => Some('\n'),
        0x2A => Some('\x08'),
        0x2B => Some('\t'),
        0x2C => Some(' '),
        0x2D => Some(if shift_pressed { '_' } else { '-' }),
        0x2E => Some(if shift_pressed { '+' } else { '=' }),
        0x2F => Some(if shift_pressed { '{' } else { '[' }),
        0x30 => Some(if shift_pressed { '}' } else { ']' }),
        0x31 => Some(if shift_pressed { '|' } else { '\\' }),
        0x33 => Some(if shift_pressed { ':' } else { ';' }),
        0x34 => Some(if shift_pressed { '"' } else { '\'' }),
        0x35 => Some(if shift_pressed { '~' } else { '`' }),
        0x36 => Some(if shift_pressed { '<' } else { ',' }),
        0x37 => Some(if shift_pressed { '>' } else { '.' }),
        0x38 => Some(if shift_pressed { '?' } else { '/' }),
        0x4C => Some('\x7F'),
        0x59 => Some('1'),
        0x5A => Some('2'),
        0x5B => Some('3'),
        0x5C => Some('4'),
        0x5D => Some('5'),
        0x5E => Some('6'),
        0x5F => Some('7'),
        0x60 => Some('8'),
        0x61 => Some('9'),
        0x62 => Some('0'),
        0x63 => Some('.'),
        0x67 => Some('='),
        // Escape, caps lock, function, arrow and media keys.
        _ => None,
    }
}

/// Mouse boot protocol report.
#[derive(Clone, Copy)]
pub struct MouseReport {
    /// Bit 0: left, bit 1: right, bit 2: middle.
    pub buttons: u8,
    /// X movement, two's complement.
    pub x_delta: u8,
    /// Y movement, two's complement.
    pub y_delta: u8,
    /// Wheel movement, if present.
    pub wheel: u8,
}

pub const MOUSE_BTN_LEFT: u8 = 0x01;

pub const MOUSE_BTN_RIGHT: u8 = 0x02;

pub const MOUSE_BTN_MIDDLE: u8 = 0x04;

/// The number that a byte stands for in two's complement.
pub open spec fn twos_complement(b: u8) -> int {
    if b < 128 {
        b as int
    } else {
        b - 256
    }
}

/// A byte as a number in two's complement.
fn signed(b: u8) -> (r: i8)
    ensures
        r == twos_complement(b),
{
    if b < 128 {
        b as i8
    } else {
        (b as i16 - 256) as i8
    }
}

/// The decimal digits of a number, after a minus sign if it is negative.
pub open spec fn signed_decimal(n: int) -> Seq<u8> {
    if n < 0 {
        "-".spec_bytes() + decimal((-n) as nat)
    } else {
        decimal(n as nat)
    }
}

fn write_signed(out: &mut Vec<u8>, n: i8)
    ensures
        final(out)@ == old(out)@ + signed_decimal(n as int),
{
    if n < 0 {
        out.extend_from_slice("-".as_bytes());
        write_dec(out, (-(n as i16)) as u64);
    } else {
        write_dec(out, n as u64);
    }
    assert(out@ =~= old(out)@ + signed_decimal(n as int));
}

/// A mouse report in words.
pub open spec fn mouse_text(m: MouseReport) -> Seq<u8> {
    "Mouse(buttons=0x".spec_bytes() + hex_digits(m.buttons as int, 4) + ", dx=".spec_bytes()
        + signed_decimal(twos_complement(m.x_delta)) + ", dy=".spec_bytes() + signed_decimal(
        twos_complement(m.y_delta),
    ) + ")".spec_bytes()
}

impl MouseReport {
    /// The report in words.
    pub fn describe(&self) -> (r: Vec<u8>)
        ensures
            r@ == mouse_text(*self),
    {
        let mut out: Vec<u8> = Vec::new();
        out.extend_from_slice("Mouse(buttons=0x".as_bytes());
        write_hex_digits(&mut out, self.buttons as u64, 4);
        out.extend_from_slice(", dx=".as_bytes());
        write_signed(&mut out, self.x_delta_signed());
        out.extend_from_slice(", dy=".as_bytes());
        write_signed(&mut out, self.y_delta_signed());
        out.extend_from_slice(")".as_bytes());
        assert(out@ =~= mouse_text(*self));
        out
    }

    /// Parses a 4-byte report.
    pub fn from_bytes(buf: &[u8; 4]) -> (r: Self)
        ensures
            r == (MouseReport { buttons: buf@[0], x_delta: buf@[1], y_delta: buf@[2], wheel: buf@[3] }),
    {
        MouseReport { buttons: buf[0], x_delta: buf[1], y_delta: buf[2], wheel: buf[3] }
    }

    /// Signed X movement.
    pub fn x_delta_signed(&self) -> (r: i8)
        ensures
            r == twos_complement(self.x_delta),
    {
        signed(self.x_delta)
    }

    /// Signed Y movement.
    pub fn y_delta_signed(&self) -> (r: i8)
        ensures
            r == twos_complement(self.y_delta),
    {
        signed(self.y_delta)
    }

    /// Whether the left button is down.
    pub fn is_left(&self) -> (r: bool)
        ensures
            r == (self.buttons & MOUSE_BTN_LEFT != 0),
    {
        self.buttons & MOUSE_BTN_LEFT != 0
    }

    /// Whether the right button is down.
    pub fn is_right(&self) -> (r: bool)
        ensures
            r == (self.buttons & MOUSE_BTN_RIGHT != 0),
    {
        self.buttons & MOUSE_BTN_RIGHT != 0
    }

    /// Whether the middle button is down.
    pub fn is_middle(&self) -> (r: bool)
        ensures
            r == (self.buttons & MOUSE_BTN_MIDDLE != 0),
    {
        self.buttons & MOUSE_BTN_MIDDLE != 0
    }
}

/// Tracks key presses and releases over successive reports.
pub struct KeyboardState {
    pub previous: KeyboardReport,
    pub current: KeyboardReport,
}

/// The keys of `a` that are not in `b`, in order.
pub open spec fn keys_without(a: KeyboardReport, b: KeyboardReport) -> Seq<u8> {
    a.keys@.filter(|k: u8| k != 0 && !b.holds(k))
}

/// Collects the keys of `a` that are not in `b`.
fn difference(a: &KeyboardReport, b: &KeyboardReport) -> (r: heapless::Vec<u8, 6>)
    ensures
        keys6(r) == keys_without(*a, *b),
{
    let mut keys = keys6_new();
    let ghost p = |k: u8| k != 0 && !b.holds(k);
    let mut i: usize = 0;
    while i < 6
        invariant
            i <= 6,
            p == (|k: u8| k != 0 && !b.holds(k)),
            keys6(keys) == a.keys@.subrange(0, i as int).filter(p),
            keys6(keys).len() <= i,
        decreases 6 - i,
    {
        let key: u8 = a.keys[i];
        proof {
            let shown = a.keys@.subrange(0, i as int);
            assert(a.keys@.subrange(0, i as int + 1) =~= shown.push(key));
            assert(shown.push(key).drop_last() =~= shown);
            reveal(Seq::filter);
        }
        if key != 0 && !b.has_key(key) {
            let _ = keys6_push(&mut keys, key);
        }
        i += 1;
    }
    assert(a.keys@.subrange(0, 6) =~= a.keys@);
    keys
}

impl KeyboardState {
    /// No key pressed, before and now.
    pub fn new() -> (r: Self)
        ensures
            r.previous.modifiers == 0,
            r.previous.reserved == 0,
            r.previous.keys@ =~= Seq::new(6, |i: int| 0u8),
            r.current.modifiers == 0,
            r.current.reserved == 0,
            r.current.keys@ =~= Seq::new(6, |i: int| 0u8),
    {
        KeyboardState { previous: KeyboardReport::default(), current: KeyboardReport::default() }
    }

    /// Takes the next report.
    pub fn update(&mut self, report: &KeyboardReport)
        ensures
            final(self).previous == old(self).current,
            final(self).current == *report,
    {
        self.previous = self.current;
        self.current = *report;
    }

    /// Keys that were just pressed: in the current report and not in the
    /// previous one.
    pub fn newly_pressed(&self) -> (r: heapless::Vec<u8, 6>)
        ensures
            keys6(r) == keys_without(self.current, self.previous),
    {
        difference(&self.current, &self.previous)
    }

    /// Keys that were just released.
    pub fn newly_released(&self) -> (r: heapless::Vec<u8, 6>)
        ensures
            keys6(r) == keys_without(self.previous, self.current),
    {
        difference(&self.previous, &self.current)
    }

    /// The first newly pressed key as a printable character.
    pub fn first_char(&self) -> (r: Option<char>)
        ensures
            ({
                let pressed = keys_without(self.current, self.previous);
                r == if pressed.len() > 0 {
                    ascii_of_usage(pressed[0], self.current.modified(MOD_LSHIFT | MOD_RSHIFT))
                } else {
                    None
                }
            }),
    {
        let pressed = self.newly_pressed();
        let keys = keys6_slice(&pressed);
        if keys.len() > 0 {
            hid_usage_to_ascii(keys[0], self.current.is_shift_pressed())
        } else {
            None
        }
    }
}

/// A key is newly pressed exactly when it is down now and was not before,
/// and no key is newly pressed and newly released at once.
pub proof fn law_pressed_and_released(s: KeyboardState, k: u8)
    ensures
        keys_without(s.current, s.previous).contains(k) <==> (k != 0 && s.current.holds(k)
            && !s.previous.holds(k)),
        keys_without(s.previous, s.current).contains(k) <==> (k != 0 && s.previous.holds(k)
            && !s.current.holds(k)),
        !(keys_without(s.current, s.previous).contains(k) && keys_without(
            s.previous,
            s.current,
        ).contains(k)),
{
    lemma_filter_contains(s.current.keys@, |x: u8| x != 0 && !s.previous.holds(x), k);
    lemma_filter_contains(s.previous.keys@, |x: u8| x != 0 && !s.current.holds(x), k);
}

/// A filtered sequence holds what the sequence holds and the filter passes.
proof fn lemma_filter_contains(s: Seq<u8>, p: spec_fn(u8) -> bool, k: u8)
    ensures
        s.filter(p).contains(k) <==> s.contains(k) && p(k),
    decreases s.len(),
{
    reveal(Seq::filter);
    if s.len() > 0 {
        let init = s.drop_last();
        lemma_filter_contains(init, p, k);
        let f = init.filter(p);
        if s.contains(k) {
            let i = choose|i: int| 0 <= i < s.len() && s[i] == k;
            if i < s.len() - 1 {
                assert(init[i] == k);
            }
        }
        if init.contains(k) {
            let i = choose|i: int| 0 <= i < init.len() && init[i] == k;
            assert(s[i] == k);
        }
        if p(s.last()) {
            assert(s.filter(p) == f.push(s.last()));
            if f.contains(k) {
                let i = choose|i: int| 0 <= i < f.len() && f[i] == k;
                assert(f.push(s.last())[i] == k);
            }
            assert(f.push(s.last())[f.len() as int] == s.last());
        }
    }
}

/// The letters: usages from 4 on, in the order of the alphabet, as capitals
/// with shift.
pub proof fn law_letter_keys(i: u8, shift: bool)
    requires
        i < 26,
    ensures
        ascii_of_usage((4 + i) as u8, shift) is Some,
        ascii_of_usage((4 + i) as u8, shift)->0 as int == (if shift {
            65int
        } else {
            97
        }) + i,
{
    reveal_strlit("ABCDEFGHIJKLMNOPQRSTUVWXYZ");
    reveal_strlit("abcdefghijklmnopqrstuvwxyz");
}

/// The digits: usages from 0x1E on, from 1 to 9, then 0.
pub proof fn law_digit_keys(i: u8)
    requires
        i < 10,
    ensures
        ascii_of_usage((0x1E + i) as u8, false) is Some,
        ascii_of_usage((0x1E + i) as u8, false)->0 as int == if i < 9 {
            49 + i
        } else {
            48
        },
        ascii_of_usage(0x1E, true) == Some('!'),
        ascii_of_usage(0x1F, true) == Some('@'),
        ascii_of_usage(0x20, true) == Some('#'),
        ascii_of_usage(0x21, true) == Some('$'),
        ascii_of_usage(0x22, true) == Some('%'),
        ascii_of_usage(0x23, true) == Some('^'),
        ascii_of_usage(0x24, true) == Some('&'),
        ascii_of_usage(0x25, true) == Some('*'),
        ascii_of_usage(0x26, true) == Some('('),
        ascii_of_usage(0x27, true) == Some(')'),
{
    reveal_strlit("!@#$%^&*()");
    reveal_strlit("1234567890");
}

/// The other keys, with and without shift.
pub proof fn law_other_keys(shift: bool)
    ensures
        ascii_of_usage(0x28, shift) == Some('\n'),
        ascii_of_usage(0x29, shift) is None,
        ascii_of_usage(0x2A, shift) == Some('\x08'),
        ascii_of_usage(0x2B, shift) == Some('\t'),
        ascii_of_usage(0x2C, shift) == Some(' '),
        ascii_of_usage(0x2D, false) == Some('-') && ascii_of_usage(0x2D, true) == Some('_'),
        ascii_of_usage(0x2E, false) == Some('=') && ascii_of_usage(0x2E, true) == Some('+'),
        ascii_of_usage(0x2F, false) == Some('[') && ascii_of_usage(0x2F, true) == Some('{'),
        ascii_of_usage(0x30, false) == Some(']') && ascii_of_usage(0x30, true) == Some('}'),
        ascii_of_usage(0x31, false) == Some('\\') && ascii_of_usage(0x31, true) == Some('|'),
        ascii_of_usage(0x32, shift) is None,
        ascii_of_usage(0x33, false) == Some(';') && ascii_of_usage(0x33, true) == Some(':'),
        ascii_of_usage(0x34, false) == Some('\'') && ascii_of_usage(0x34, true) == Some('"'),
        ascii_of_usage(0x35, false) == Some('`') && ascii_of_usage(0x35, true) == Some('~'),
        ascii_of_usage(0x36, false) == Some(',') && ascii_of_usage(0x36, true) == Some('<'),
        ascii_of_usage(0x37, false) == Some('.') && ascii_of_usage(0x37, true) == Some('>'),
        ascii_of_usage(0x38, false) == Some('/') && ascii_of_usage(0x38, true) == Some('?'),
        ascii_of_usage(0x4C, shift) == Some('\x7F'),
        ascii_of_usage(0x67, shift) == Some('='),
{
    reveal_strlit("_+{}|");
    reveal_strlit("-=[]\\");
    reveal_strlit(":\"~<>?");
    reveal_strlit(";'`,./");
}

/// The keypad: usages from 0x59 on, from 1 to 9, then 0 and the point; shift
/// does not matter.
pub proof fn law_keypad(i: u8, shift: bool)
    requires
        i < 11,
    ensures
        ascii_of_usage((0x59 + i) as u8, shift) is Some,
        ascii_of_usage((0x59 + i) as u8, shift)->0 as int == if i < 9 {
            49 + i
        } else if i == 9 {
            48int
        } else {
            46
        },
{
    reveal_strlit("1234567890.");
}

/// All other usages have no character.
pub proof fn law_keys_without_a_character(usage: u8, shift: bool)
    ensures
        usage < 4 || usage == 0x29 || usage == 0x32 || 0x39 <= usage <= 0x4B || 0x4D <= usage <= 0x58
            || 0x64 <= usage <= 0x66 || usage >= 0x68 ==> ascii_of_usage(usage, shift) is None,
{
}

/// The modifiers, by their bits: control, shift, alt and meta on the left from
/// bit 0 on, on the right from bit 4 on.
pub proof fn law_modifiers(r: KeyboardReport)
    ensures
        r.modified(MOD_LCTRL | MOD_RCTRL) <==> r.modifiers % 2 == 1 || r.modifiers / 16 % 2 == 1,
        r.modified(MOD_LSHIFT | MOD_RSHIFT) <==> r.modifiers / 2 % 2 == 1 || r.modifiers / 32 % 2 == 1,
        r.modified(MOD_LALT | MOD_RALT) <==> r.modifiers / 4 % 2 == 1 || r.modifiers / 64 % 2 == 1,
        r.modified(MOD_LMETA | MOD_RMETA) <==> r.modifiers / 8 % 2 == 1 || r.modifiers / 128 == 1,
        MOUSE_BTN_LEFT == 1 && MOUSE_BTN_RIGHT == 2 && MOUSE_BTN_MIDDLE == 4,
{
    lemma_modifier_bits(r.modifiers);
}

proof fn lemma_modifier_bits(m: u8)
    by (bit_vector)
    ensures
        (m & (0x01u8 | 0x10u8) != 0) == (m % 2 == 1 || m / 16 % 2 == 1),
        (m & (0x02u8 | 0x20u8) != 0) == (m / 2 % 2 == 1 || m / 32 % 2 == 1),
        (m & (0x04u8 | 0x40u8) != 0) == (m / 4 % 2 == 1 || m / 64 % 2 == 1),
        (m & (0x08u8 | 0x80u8) != 0) == (m / 8 % 2 == 1 || m / 128 == 1),
{
}

/// A byte of a report is a signed number of eight bits.
pub proof fn law_signed_bytes(b: u8)
    ensures
        -128 <= twos_complement(b) <= 127,
        twos_complement(b) % 256 == b,
{
}

/// A key is held if one of the six places has it.
pub proof fn law_held_keys(r: KeyboardReport, usage: u8)
    ensures
        r.holds(usage) <==> r.keys@[0] == usage || r.keys@[1] == usage || r.keys@[2] == usage || r.keys@[3]
            == usage || r.keys@[4] == usage || r.keys@[5] == usage,
{
    let k = r.keys@;
    assert(k.len() == 6);
    if k[0] == usage || k[1] == usage || k[2] == usage || k[3] == usage || k[4] == usage || k[5]
        == usage {
        assert(k.contains(usage));
    }
    if k.contains(usage) {
        let i = choose|i: int| 0 <= i < k.len() && k[i] == usage;
        assert(i == 0 || i == 1 || i == 2 || i == 3 || i == 4 || i == 5);
    }
}

/// A signed number is its size in decimal, behind a minus sign exactly if it is negative.
pub proof fn law_signed_numbers(n: int)
    ensures
        n >= 0 ==> signed_decimal(n) == decimal(n as nat),
        n < 0 ==> signed_decimal(n) == "-".spec_bytes() + signed_decimal(-n),
{
}

/// A byte stands for a number from -128 to 127 that differs from it by a multiple of 256.
pub proof fn law_twos_complement(b: u8)
    ensures
        -128 <= twos_complement(b) <= 127,
        (b - twos_complement(b)) % 256 == 0,
{
}

/// A mouse's report ends with how far it moved down, after how far it moved across.
pub proof fn law_mouse_text(m: MouseReport)
    ensures
        (signed_decimal(twos_complement(m.x_delta)) + ", dy=".spec_bytes() + signed_decimal(
            twos_complement(m.y_delta),
        ) + ")".spec_bytes()).is_suffix_of(mouse_text(m)),
        ("Mouse(buttons=0x".spec_bytes() + hex_digits(m.buttons as int, 4)).is_prefix_of(mouse_text(m)),
{
    let x = signed_decimal(twos_complement(m.x_delta));
    let y = signed_decimal(twos_complement(m.y_delta));
    let tail = x + ", dy=".spec_bytes() + y + ")".spec_bytes();
    let head = "Mouse(buttons=0x".spec_bytes() + hex_digits(m.buttons as int, 4);
    assert(mouse_text(m) =~= head + ", dx=".spec_bytes() + tail);
}

/// Keys are listed in their order, in hexadecimal, and where there is none nothing is.
pub proof fn law_listed_keys(keys: Seq<u8>, n: int)
    requires
        1 <= n <= keys.len(),
    ensures
        keys_text(keys, 0).len() == 0,
        keys[n - 1] == 0 ==> keys_text(keys, n) == keys_text(keys, n - 1),
        keys[n - 1] != 0 ==> keys_text(keys, n - 1).is_prefix_of(keys_text(keys, n)),
        keys[n - 1] != 0 ==> ("0x".spec_bytes() + hex_digits(keys[n - 1] as int, 2)).is_suffix_of(
            keys_text(keys, n),
        ),
{
    if keys[n - 1] != 0 {
        let gap = if n > 1 { " ".spec_bytes() } else { Seq::<u8>::empty() };
        let key = "0x".spec_bytes() + hex_digits(keys[n - 1] as int, 2);
        assert(keys_text(keys, n) =~= keys_text(keys, n - 1) + gap + key);
    }
}

} // verus!
