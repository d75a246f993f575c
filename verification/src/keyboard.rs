//! PS/2 keyboard driver: scancode set 1 to characters.
//!
//! The interrupt handler feeds raw scancodes in; the driver tracks the shift
//! state, translates make codes to ASCII, and queues characters in a small
//! ring buffer for tasks to consume.

use vstd::prelude::*;
use vstd::string::StringSliceAdditionalSpecFns;

verus! {

/// Characters that the queue holds (a power of two).
pub const QUEUE_SIZE: u64 = 64;

/// Keyboard state: the character ring and the modifier keys.
pub struct Keyboard {
    queue: [u8; 64],
    /// Number of the next character to write, modulo 2^64.
    head: u64,
    /// Number of the next character to read, modulo 2^64.
    tail: u64,
    /// Whether a shift key is down.
    shift: bool,
}

/// What a keyboard holds.
#[verifier::ext_equal]
pub struct KeyboardModel {
    pub queue: Seq<u8>,
    pub shift: bool,
}

/// Number of characters between two counters that wrap.
pub open spec fn distance(head: u64, tail: u64) -> int {
    if head >= tail {
        head - tail
    } else {
        head - tail + 0x1_0000_0000_0000_0000
    }
}

impl View for Keyboard {
    type V = KeyboardModel;

    closed spec fn view(&self) -> KeyboardModel {
        KeyboardModel {
            queue: Seq::new(
                distance(self.head, self.tail) as nat,
                |i: int| self.queue@[(self.tail + i) % 64],
            ),
            shift: self.shift,
        }
    }
}

/// The character keys of scancode set 1 without shift, by make code; NUL
/// where a key has no character.
pub open spec fn map_lower() -> Seq<u8> {
    "\0\x1B1234567890-=\x08\tqwertyuiop[]\n\0asdfghjkl;'`\0\\zxcvbnm,./\0*\0 \0\0\0\0\0\0".spec_bytes()
}

/// The character keys with shift.
pub open spec fn map_upper() -> Seq<u8> {
    "\0\x1B!@#$%^&*()_+\x08\tQWERTYUIOP{}\n\0ASDFGHJKL:\"~\0|ZXCVBNM<>?\0*\0 \0\0\0\0\0\0".spec_bytes()
}

/// The character that a make code stands for, 0 for none.
pub open spec fn char_of_code(code: int, shift: bool) -> u8 {
    if code >= 64 {
        0
    } else if shift {
        map_upper()[code]
    } else {
        map_lower()[code]
    }
}

/// Both maps have 64 entries.
proof fn lemma_maps()
    ensures
        map_lower().len() == 64,
        map_upper().len() == 64,
{
    reveal_strlit(
        "\0\x1B1234567890-=\x08\tqwertyuiop[]\n\0asdfghjkl;'`\0\\zxcvbnm,./\0*\0 \0\0\0\0\0\0",
    );
    reveal_strlit(
        "\0\x1B!@#$%^&*()_+\x08\tQWERTYUIOP{}\n\0ASDFGHJKL:\"~\0|ZXCVBNM<>?\0*\0 \0\0\0\0\0\0",
    );
    vstd::string::is_ascii_spec_bytes(
        "\0\x1B1234567890-=\x08\tqwertyuiop[]\n\0asdfghjkl;'`\0\\zxcvbnm,./\0*\0 \0\0\0\0\0\0",
    );
    vstd::string::is_ascii_spec_bytes(
        "\0\x1B!@#$%^&*()_+\x08\tQWERTYUIOP{}\n\0ASDFGHJKL:\"~\0|ZXCVBNM<>?\0*\0 \0\0\0\0\0\0",
    );
}

impl KeyboardModel {
    /// The keyboard after a scancode.
    pub open spec fn after_scancode(self, scancode: u8) -> KeyboardModel {
        let released = scancode >= 0x80;
        let code = scancode as int % 0x80;
        let c = char_of_code(code, self.shift);
        if scancode == 0xE0 {
            self
        } else if code == 0x2A || code == 0x36 {
            KeyboardModel { shift: !released, ..self }
        } else if released || c == 0 {
            self
        } else {
            self.pushed(c)
        }
    }

    /// The keyboard with a character queued; a full queue drops it.
    pub open spec fn pushed(self, c: u8) -> KeyboardModel {
        if self.queue.len() >= QUEUE_SIZE {
            self
        } else {
            KeyboardModel { queue: self.queue.push(c), ..self }
        }
    }

    /// The keyboard with the oldest character taken.
    pub open spec fn popped(self) -> KeyboardModel {
        if self.queue.len() == 0 {
            self
        } else {
            KeyboardModel { queue: self.queue.drop_first(), ..self }
        }
    }
}

impl Keyboard {
    pub closed spec fn inv(&self) -> bool {
        distance(self.head, self.tail) <= QUEUE_SIZE
    }

    /// What the invariant says of the model: the queue keeps to its size.
    pub proof fn lemma_inv(&self)
        requires
            self.inv(),
        ensures
            self@.queue.len() <= QUEUE_SIZE,
    {
    }

    /// A keyboard with nothing typed and no key down.
    pub fn new() -> (r: Self)
        ensures
            r.inv(),
            r@ == (KeyboardModel { queue: Seq::empty(), shift: false }),
    {
        Keyboard { queue: [0; 64], head: 0, tail: 0, shift: false }
    }

    /// Queues a character; a full queue drops it.
    pub fn push_char(&mut self, c: u8)
        requires
            old(self).inv(),
        ensures
            final(self).inv(),
            final(self)@ == old(self)@.pushed(c),
    {
        let ghost before = self@;
        if self.head.wrapping_sub(self.tail) >= QUEUE_SIZE {
            return;
        }
        let ghost old_queue = self.queue@;
        let at: usize = (self.head % 64) as usize;
        assert(at == (self.tail + distance(self.head, self.tail)) % 64);
        self.queue[at] = c;
        self.head = self.head.wrapping_add(1);
        assert forall|i: int| 0 <= i < before.queue.len() implies self@.queue[i] == before.queue[i] by {
            let n = before.queue.len();
            assert((self.tail + i) % 64 != (self.tail + n) % 64) by {
                assert(0 < n - i < 64);
            }
        }
        assert(self@.queue =~= before.pushed(c).queue);
    }

    /// Pops one character from the queue.
    fn pop(&mut self) -> (r: Option<u8>)
        requires
            old(self).inv(),
        ensures
            final(self).inv(),
            final(self)@ == old(self)@.popped(),
            r == if old(self)@.queue.len() > 0 { Some(old(self)@.queue[0]) } else { None },
    {
        let ghost before = self@;
        if self.tail == self.head {
            return None;
        }
        let c: u8 = self.queue[(self.tail % 64) as usize];
        self.tail = self.tail.wrapping_add(1);
        assert forall|i: int| 0 <= i < self@.queue.len() implies self@.queue[i] == before.queue[i + 1] by {
            assert((self.tail + i) % 64 == (old(self).tail + (i + 1)) % 64);
        }
        assert(self@.queue =~= before.popped().queue);
        Some(c)
    }
}

/// Pops one character from the keyboard queue: the oldest one typed.
pub fn pop_char(k: &mut Keyboard) -> (r: Option<u8>)
    requires
        old(k).inv(),
    ensures
        final(k).inv(),
        final(k)@ == old(k)@.popped(),
        r == if old(k)@.queue.len() > 0 { Some(old(k)@.queue[0]) } else { None },
{
    k.pop()
}

/// Feeds one raw scancode from the interrupt handler.
pub fn handle_scancode(k: &mut Keyboard, scancode: u8)
    requires
        old(k).inv(),
    ensures
        final(k).inv(),
        final(k)@ == old(k)@.after_scancode(scancode),
{
    // The prefix of an extended key is dropped and leaves no state: the byte
    // after it counts like any other.
    if scancode == 0xE0 {
        return;
    }
    let released = scancode >= 0x80;
    let code: u8 = scancode % 0x80;
    if code == 0x2A || code == 0x36 {
        let ghost before = k@;
        k.shift = !released;
        assert(k@.queue =~= before.queue);
        return;
    }
    if released || code >= 64 {
        return;
    }
    proof {
        lemma_maps();
    }
    let map: &str = if k.shift {
        "\0\x1B!@#$%^&*()_+\x08\tQWERTYUIOP{}\n\0ASDFGHJKL:\"~\0|ZXCVBNM<>?\0*\0 \0\0\0\0\0\0"
    } else {
        "\0\x1B1234567890-=\x08\tqwertyuiop[]\n\0asdfghjkl;'`\0\\zxcvbnm,./\0*\0 \0\0\0\0\0\0"
    };
    let c: u8 = map.as_bytes()[code as usize];
    if c != 0 {
        k.push_char(c);
    }
}

/// Characters come out in the order in which they were typed: one that is
/// queued comes out after all that were queued before it, unless the queue
/// was full.
pub proof fn law_queue_is_fifo(k: KeyboardModel, c: u8)
    ensures
        k.queue.len() < QUEUE_SIZE ==> k.pushed(c).queue == k.queue.push(c),
        k.queue.len() >= QUEUE_SIZE ==> k.pushed(c) == k,
        k.queue.len() == 0 ==> k.pushed(c).queue[0] == c && k.pushed(c).popped() == k,
        0 < k.queue.len() < QUEUE_SIZE ==> k.pushed(c).queue[0] == k.queue[0] && k.pushed(c).popped()
            == k.popped().pushed(c),
{
    if k.queue.len() == 0 {
        assert(k.pushed(c).popped().queue =~= k.queue);
    } else if k.queue.len() < QUEUE_SIZE {
        assert(k.pushed(c).popped().queue =~= k.popped().pushed(c).queue);
    }
}

/// The keys of the keyboard: digits from scancode 2 on, the letters in three
/// rows from 16, 30 and 44 on, and the keys between and around them.
pub proof fn law_keys()
    ensures
        char_of_code(1, false) == 27,
        char_of_code(2, false) == 0x31 && char_of_code(3, false) == 0x32 && char_of_code(4, false) == 0x33,
        char_of_code(5, false) == 0x34 && char_of_code(6, false) == 0x35 && char_of_code(7, false) == 0x36,
        char_of_code(8, false) == 0x37 && char_of_code(9, false) == 0x38 && char_of_code(10, false)
            == 0x39,
        char_of_code(11, false) == 0x30 && char_of_code(12, false) == 0x2D && char_of_code(13, false)
            == 0x3D,
        char_of_code(14, false) == 8 && char_of_code(15, false) == 9,
        // q w e r t y u i o p
        char_of_code(16, false) == 0x71 && char_of_code(17, false) == 0x77 && char_of_code(18, false)
            == 0x65,
        char_of_code(19, false) == 0x72 && char_of_code(20, false) == 0x74 && char_of_code(21, false)
            == 0x79,
        char_of_code(22, false) == 0x75 && char_of_code(23, false) == 0x69 && char_of_code(24, false)
            == 0x6F,
        char_of_code(25, false) == 0x70 && char_of_code(26, false) == 0x5B && char_of_code(27, false)
            == 0x5D,
        char_of_code(28, false) == 10,
        // a s d f g h j k l
        char_of_code(30, false) == 0x61 && char_of_code(31, false) == 0x73 && char_of_code(32, false)
            == 0x64,
        char_of_code(33, false) == 0x66 && char_of_code(34, false) == 0x67 && char_of_code(35, false)
            == 0x68,
        char_of_code(36, false) == 0x6A && char_of_code(37, false) == 0x6B && char_of_code(38, false)
            == 0x6C,
        char_of_code(39, false) == 0x3B && char_of_code(40, false) == 0x27 && char_of_code(41, false)
            == 0x60,
        // z x c v b n m
        char_of_code(43, false) == 0x5C,
        char_of_code(44, false) == 0x7A && char_of_code(45, false) == 0x78 && char_of_code(46, false)
            == 0x63,
        char_of_code(47, false) == 0x76 && char_of_code(48, false) == 0x62 && char_of_code(49, false)
            == 0x6E,
        char_of_code(50, false) == 0x6D && char_of_code(51, false) == 0x2C && char_of_code(52, false)
            == 0x2E,
        char_of_code(53, false) == 0x2F,
        char_of_code(55, false) == 0x2A && char_of_code(57, false) == 0x20,
{
    lemma_maps();
    reveal_strlit(
        "\0\x1B1234567890-=\x08\tqwertyuiop[]\n\0asdfghjkl;'`\0\\zxcvbnm,./\0*\0 \0\0\0\0\0\0",
    );
    vstd::string::is_ascii_spec_bytes(
        "\0\x1B1234567890-=\x08\tqwertyuiop[]\n\0asdfghjkl;'`\0\\zxcvbnm,./\0*\0 \0\0\0\0\0\0",
    );
}

/// With shift a letter is a capital; the other keys have the character above;
/// and a key without a character has none with shift either.
pub proof fn law_shifted_keys(code: int)
    requires
        0 <= code < 64,
    ensures
        97 <= char_of_code(code, false) <= 122 ==> char_of_code(code, true) == char_of_code(code, false)
            - 32,
        char_of_code(code, false) == 0 <==> char_of_code(code, true) == 0,
        // ! @ # $ % ^ & * ( ) _ +
        char_of_code(2, true) == 0x21 && char_of_code(3, true) == 0x40 && char_of_code(4, true) == 0x23,
        char_of_code(5, true) == 0x24 && char_of_code(6, true) == 0x25 && char_of_code(7, true) == 0x5E,
        char_of_code(8, true) == 0x26 && char_of_code(9, true) == 0x2A && char_of_code(10, true) == 0x28,
        char_of_code(11, true) == 0x29 && char_of_code(12, true) == 0x5F && char_of_code(13, true) == 0x2B,
        char_of_code(26, true) == 0x7B && char_of_code(27, true) == 0x7D && char_of_code(39, true) == 0x3A,
        char_of_code(40, true) == 0x22 && char_of_code(41, true) == 0x7E && char_of_code(43, true) == 0x7C,
        char_of_code(51, true) == 0x3C && char_of_code(52, true) == 0x3E && char_of_code(53, true) == 0x3F,
        char_of_code(28, true) == 10 && char_of_code(57, true) == 0x20,
{
    lemma_maps();
    reveal_strlit(
        "\0\x1B1234567890-=\x08\tqwertyuiop[]\n\0asdfghjkl;'`\0\\zxcvbnm,./\0*\0 \0\0\0\0\0\0",
    );
    reveal_strlit(
        "\0\x1B!@#$%^&*()_+\x08\tQWERTYUIOP{}\n\0ASDFGHJKL:\"~\0|ZXCVBNM<>?\0*\0 \0\0\0\0\0\0",
    );
    vstd::string::is_ascii_spec_bytes(
        "\0\x1B1234567890-=\x08\tqwertyuiop[]\n\0asdfghjkl;'`\0\\zxcvbnm,./\0*\0 \0\0\0\0\0\0",
    );
    vstd::string::is_ascii_spec_bytes(
        "\0\x1B!@#$%^&*()_+\x08\tQWERTYUIOP{}\n\0ASDFGHJKL:\"~\0|ZXCVBNM<>?\0*\0 \0\0\0\0\0\0",
    );
}

/// What a scancode does. A press of either shift key sets shift, its release
/// clears it. Other releases, the prefix of extended keys and keys without a
/// character do nothing. Any other press types the character of its key, as
/// long as fewer than 64 wait.
pub proof fn law_scancodes(k: KeyboardModel, code: u8)
    ensures
        code == 0x2A || code == 0x36 ==> k.after_scancode(code).shift && k.after_scancode(code).queue
            == k.queue,
        code == 0xAA || code == 0xB6 ==> !k.after_scancode(code).shift && k.after_scancode(code).queue
            == k.queue,
        code >= 0x80 && code != 0xAA && code != 0xB6 ==> k.after_scancode(code) == k,
        64 <= code < 0x80 ==> k.after_scancode(code) == k,
        code < 64 && code != 0x2A && code != 0x36 ==> {
            let c = char_of_code(code as int, k.shift);
            let q = k.after_scancode(code);
            &&& q.shift == k.shift
            &&& c != 0 && k.queue.len() < 64 ==> q.queue == k.queue.push(c)
            &&& c == 0 || k.queue.len() >= 64 ==> q.queue == k.queue
        },
{
}

} // verus!
