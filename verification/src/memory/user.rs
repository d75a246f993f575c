//! User address space: loading user programs and validating user pointers
//! passed to syscalls.
//!
//! All tasks share one page table. User programs live in a lower-half window
//! whose pages are user-accessible; every other mapping is not, so user code
//! can't read, write or jump into the kernel. Each user task gets its own
//! 1 MiB slot: an unmapped page, code (read and execute), and near the top a
//! stack of four pages (read and write, no execute) with an unmapped page
//! above it.

use vstd::prelude::*;
use vstd::string::StringSliceAdditionalSpecFns;
use crate::bits::lemma_mask_is_floor;
use crate::serial::{hex, push_hex_short};

verus! {

/// Start of the user window.
pub const USER_BASE: u64 = 0x0000_6400_0000_0000;

/// Size of each task's slot.
pub const USER_SLOT_SIZE: u64 = 0x10_0000;

/// Maximum number of user programs.
pub const USER_MAX_SLOTS: u64 = 64;

/// End of the user window (exclusive).
pub const USER_END: u64 = 0x0000_6400_0400_0000;

pub const CODE_OFFSET: u64 = 0x1000;

pub const STACK_PAGES: u64 = 4;

pub const STACK_TOP_OFFSET: u64 = 0xF_F000;

pub const PAGE: u64 = 4096;

/// A loaded user program.
#[derive(Debug, Clone, Copy, PartialEq, Eq, Structural)]
pub struct UserImage {
    /// Entry point (first byte of the code).
    pub entry: u64,
    /// Initial user stack pointer.
    pub stack_top: u64,
}

/// A page of a program: it is mapped to a fresh frame that holds `len` bytes
/// of the code from `offset` on, and zeros.
#[derive(Debug, Clone, Copy, PartialEq, Eq, Structural)]
pub struct ProgramPage {
    pub va: u64,
    pub offset: usize,
    pub len: usize,
    pub writable: bool,
    pub executable: bool,
}

/// Why a program is not loaded.
#[derive(Debug, Clone, Copy, PartialEq, Eq, Structural)]
pub enum LoadError {
    /// The program is empty or too large for a user slot.
    TooLarge,
    /// There are no free user slots.
    NoSlots,
}

impl LoadError {
    pub open spec fn text(self) -> Seq<char> {
        match self {
            LoadError::TooLarge => "program too large for a user slot"@,
            LoadError::NoSlots => "no free user slots"@,
        }
    }

    /// The error in words.
    pub fn message(self) -> (r: &'static str)
        ensures
            r@ == self.text(),
    {
        match self {
            LoadError::TooLarge => "program too large for a user slot",
            LoadError::NoSlots => "no free user slots",
        }
    }
}

/// Whether the user window is free for use, given what its first page maps.
pub fn init(first_page: Option<(bool, bool)>) -> (r: bool)
    ensures
        r == (first_page is None),
{
    first_page.is_none()
}

/// What the console says of the user window.
pub open spec fn window_text(free: bool) -> Seq<u8> {
    "[USER] User window 0x".spec_bytes() + hex(USER_BASE as nat) + "..0x".spec_bytes() + hex(
        USER_END as nat,
    ) + " ".spec_bytes() + (if free {
        "ready".spec_bytes()
    } else {
        "ALREADY MAPPED \u{2014} userspace disabled".spec_bytes()
    }) + "\n".spec_bytes()
}

/// What the console says of the user window, in one piece so that it does not
/// mix with lines of tasks that run already.
pub fn window_line(free: bool) -> (r: Vec<u8>)
    ensures
        r@ == window_text(free),
{
    let mut line: Vec<u8> = Vec::new();
    line.extend_from_slice("[USER] User window 0x".as_bytes());
    push_hex_short(&mut line, USER_BASE);
    line.extend_from_slice("..0x".as_bytes());
    push_hex_short(&mut line, USER_END);
    line.extend_from_slice(" ".as_bytes());
    let state: &str = if free {
        "ready"
    } else {
        "ALREADY MAPPED \u{2014} userspace disabled"
    };
    line.extend_from_slice(state.as_bytes());
    line.extend_from_slice("\n".as_bytes());
    assert(line@ =~= window_text(free));
    line
}

/// Number of pages that `len` bytes of code take.
pub open spec fn code_pages(len: int) -> int {
    (len + 4095) / 4096
}

/// The program fits between the start of a slot and its stack.
pub open spec fn loadable(len: int) -> bool {
    len > 0 && CODE_OFFSET + code_pages(len) * PAGE <= STACK_TOP_OFFSET - STACK_PAGES * PAGE
}

/// The slot's base address.
pub open spec fn slot_base(slot: int) -> int {
    USER_BASE + slot * USER_SLOT_SIZE
}

/// Page `i` of the code in a slot: read-only, executable.
pub open spec fn code_page(base: int, len: int, i: int) -> ProgramPage {
    ProgramPage {
        va: (base + CODE_OFFSET + i * PAGE) as u64,
        offset: (i * PAGE) as usize,
        len: (if (i + 1) * PAGE < len { PAGE as int } else { len - i * PAGE }) as usize,
        writable: false,
        executable: true,
    }
}

/// The `i`th page below the top of the stack in a slot: writable, not
/// executable.
pub open spec fn stack_page(base: int, i: int) -> ProgramPage {
    ProgramPage {
        va: (base + STACK_TOP_OFFSET - i * PAGE) as u64,
        offset: 0,
        len: 0,
        writable: true,
        executable: false,
    }
}

/// The pages of a program in a slot, in the order in which they are mapped.
pub open spec fn program_pages(base: int, len: int) -> Seq<ProgramPage> {
    Seq::new(code_pages(len) as nat, |i: int| code_page(base, len, i)) + Seq::new(
        STACK_PAGES as nat,
        |i: int| stack_page(base, i + 1),
    )
}

/// Plans the load of a flat, position-independent binary of `code.len()`
/// bytes into a fresh slot: code pages read-only and executable, a writable
/// stack that is not. `next_slot` counts the slots handed out.
pub fn load_program(next_slot: &mut u64, code: &[u8]) -> (r: Result<
    (UserImage, Vec<ProgramPage>),
    LoadError,
>)
    requires
        *old(next_slot) < u64::MAX,
    ensures
        ({
            let slot = *old(next_slot) as int;
            let len = code@.len() as int;
            if !loadable(len) {
                r == Err::<(UserImage, Vec<ProgramPage>), LoadError>(LoadError::TooLarge)
                    && *final(next_slot) == slot
            } else if slot >= USER_MAX_SLOTS {
                r == Err::<(UserImage, Vec<ProgramPage>), LoadError>(LoadError::NoSlots)
                    && *final(next_slot) == slot + 1
            } else {
                &&& r is Ok
                &&& *final(next_slot) == slot + 1
                &&& r->Ok_0.0 == (UserImage {
                    entry: (slot_base(slot) + CODE_OFFSET) as u64,
                    stack_top: (slot_base(slot) + STACK_TOP_OFFSET) as u64,
                })
                &&& r->Ok_0.1@ == program_pages(slot_base(slot), len)
            }
        }),
{
    let len: usize = code.len();
    if len == 0 || len > 0xF_A000 {
        return Err(LoadError::TooLarge);
    }
    let pages: u64 = (len as u64 + 4095) / 4096;
    let slot: u64 = *next_slot;
    *next_slot = slot + 1;
    if slot >= USER_MAX_SLOTS {
        return Err(LoadError::NoSlots);
    }
    let base: u64 = USER_BASE + slot * USER_SLOT_SIZE;
    let mut plan: Vec<ProgramPage> = Vec::new();
    let mut i: u64 = 0;
    while i < pages
        invariant
            i <= pages <= 0xFA,
            pages == code_pages(len as int),
            0 < len <= 0xF_A000,
            base == slot_base(slot as int),
            slot < USER_MAX_SLOTS,
            plan@ == Seq::new(i as nat, |k: int| code_page(base as int, len as int, k)),
        decreases pages - i,
    {
        let start: usize = (i * 4096) as usize;
        let n: usize = if len - start < 4096 { len - start } else { 4096 };
        plan.push(
            ProgramPage {
                va: base + CODE_OFFSET + i * 4096,
                offset: start,
                len: n,
                writable: false,
                executable: true,
            },
        );
        i += 1;
        assert(plan@ =~= Seq::new(i as nat, |k: int| code_page(base as int, len as int, k)));
    }
    let stack_top: u64 = base + STACK_TOP_OFFSET;
    let ghost codes = plan@;
    let mut j: u64 = 0;
    while j < STACK_PAGES
        invariant
            j <= STACK_PAGES,
            base == slot_base(slot as int),
            slot < USER_MAX_SLOTS,
            stack_top == base + STACK_TOP_OFFSET,
            plan@ =~= codes + Seq::new(j as nat, |k: int| stack_page(base as int, k + 1)),
        decreases STACK_PAGES - j,
    {
        plan.push(
            ProgramPage {
                va: stack_top - (j + 1) * 4096,
                offset: 0,
                len: 0,
                writable: true,
                executable: false,
            },
        );
        j += 1;
    }
    Ok((UserImage { entry: base + CODE_OFFSET, stack_top }, plan))
}

/// Every page of a loaded program lies in its own slot of the user window,
/// with the first and the last page of the slot left out as guards; no other
/// page, of this program or another, shares it; and it is either writable or
/// executable, never both.
pub proof fn law_programs_keep_to_their_slots(slot: int, other: int, len: int, len2: int, i: int, j: int)
    requires
        0 <= slot < USER_MAX_SLOTS,
        0 <= other < USER_MAX_SLOTS,
        loadable(len),
        loadable(len2),
        0 <= i < program_pages(slot_base(slot), len).len(),
        0 <= j < program_pages(slot_base(other), len2).len(),
    ensures
        ({
            let p = program_pages(slot_base(slot), len)[i];
            let q = program_pages(slot_base(other), len2)[j];
            &&& slot_base(slot) + CODE_OFFSET <= p.va
            &&& p.va + PAGE <= slot_base(slot) + STACK_TOP_OFFSET
            &&& USER_BASE <= p.va
            &&& p.va + PAGE <= USER_END
            &&& p.writable == !p.executable
            &&& slot != other || (len == len2 && i != j) ==> p.va + PAGE <= q.va || q.va + PAGE <= p.va
        }),
{
}

/// Every byte of a program's code is put where the program expects it: byte
/// `k` of the code lies `k` bytes after the entry, on an executable page.
pub proof fn law_code_is_loaded(slot: int, len: int, k: int)
    requires
        0 <= slot < USER_MAX_SLOTS,
        loadable(len),
        0 <= k < len,
    ensures
        ({
            let p = program_pages(slot_base(slot), len)[k / 4096];
            &&& k / 4096 < program_pages(slot_base(slot), len).len()
            &&& p.offset <= k < p.offset + p.len
            &&& p.va + (k - p.offset) == slot_base(slot) + CODE_OFFSET + k
            &&& p.executable
            &&& p.len <= PAGE
        }),
{
}

/// `[ptr, ptr + len)` lies in the user window.
pub open spec fn in_window(ptr: u64, len: u64) -> bool {
    USER_BASE <= ptr && ptr + len <= USER_END
}

/// Number of pages that `len > 0` bytes at `ptr` touch.
pub open spec fn pages_touched(ptr: u64, len: u64) -> int {
    (ptr + len - 1) / 4096 - ptr as int / 4096 + 1
}

/// A page with these attributes (user-accessible, writable) may be accessed.
pub open spec fn page_ok(attrs: Option<(bool, bool)>, write: bool) -> bool {
    match attrs {
        Some((user, writable)) => user && (write ==> writable),
        None => false,
    }
}

/// The pages whose attributes `range_ok` needs: the address of the first, and
/// their number. None where it can tell without.
pub fn pages_to_query(ptr: u64, len: u64) -> (r: (u64, u64))
    ensures
        r.0 == ptr - ptr % 4096,
        r.1 == if len > 0 && in_window(ptr, len) { pages_touched(ptr, len) } else { 0 },
{
    proof {
        lemma_mask_is_floor(ptr);
    }
    let first: u64 = ptr & !0xFFFu64;
    if len == 0 || ptr < USER_BASE || ptr > USER_END || len > USER_END - ptr {
        (first, 0)
    } else {
        (first, (ptr + (len - 1)) / 4096 - ptr / 4096 + 1)
    }
}

/// Whether `[ptr, ptr + len)` lies entirely in user-accessible memory
/// (writable too, if `write`), given the attributes of the pages that it
/// touches, in order. A syscall must pass this before the kernel touches a
/// user pointer.
pub fn range_ok(ptr: u64, len: u64, write: bool, pages: &[Option<(bool, bool)>]) -> (r: bool)
    requires
        len > 0 && in_window(ptr, len) ==> pages@.len() >= pages_touched(ptr, len),
    ensures
        r == (len == 0 || in_window(ptr, len) && forall|i: int|
            0 <= i < pages_touched(ptr, len) ==> page_ok(#[trigger] pages@[i], write)),
{
    if len == 0 {
        return true;
    }
    let (first, count) = pages_to_query(ptr, len);
    if count == 0 {
        return false;
    }
    let mut i: u64 = 0;
    while i < count
        invariant
            i <= count,
            count == pages_touched(ptr, len),
            pages@.len() >= count,
            in_window(ptr, len),
            len > 0,
            forall|k: int| 0 <= k < i ==> page_ok(#[trigger] pages@[k], write),
        decreases count - i,
    {
        match pages[i as usize] {
            Some((true, writable)) => {
                if write && !writable {
                    assert(!page_ok(pages@[i as int], write));
                    return false;
                }
            },
            _ => {
                assert(!page_ok(pages@[i as int], write));
                return false;
            },
        }
        i += 1;
    }
    true
}

/// A range that is accepted holds only bytes of the user window, each on a
/// page that user code may access, and write to if the kernel is to.
pub proof fn law_accepted_range_is_user_memory(
    ptr: u64,
    len: u64,
    write: bool,
    pages: Seq<Option<(bool, bool)>>,
    a: int,
)
    requires
        len > 0,
        in_window(ptr, len),
        pages.len() >= pages_touched(ptr, len),
        forall|i: int| 0 <= i < pages_touched(ptr, len) ==> page_ok(#[trigger] pages[i], write),
        ptr <= a < ptr + len,
    ensures
        USER_BASE <= a < USER_END,
        page_ok(pages[a / 4096 - ptr as int / 4096], write),
{
}

/// The user window and the slots in it: 64 of a mebibyte each, from 0x6400
/// 0000 0000 on.
pub proof fn law_user_window(slot: int)
    ensures
        slot_base(0) == 0x6400_0000_0000,
        slot_base(slot + 1) == slot_base(slot) + 0x10_0000,
        slot_base(64) == USER_END,
        USER_BASE == 0x6400_0000_0000,
        USER_MAX_SLOTS == 64,
{
}

/// A program has the pages that its code needs, then four for its stack, which
/// lie one below the other from the top of the stack.
pub proof fn law_program_pages(base: int, len: int, i: int)
    requires
        loadable(len),
        0 <= base <= USER_END,
        0 <= i < 4,
    ensures
        ({
            let pages = program_pages(base, len);
            let n = code_pages(len);
            &&& 4096 * (n - 1) < len <= 4096 * n
            &&& pages.len() == n + 4
            &&& pages[n + i].va == base + 0xF_F000 - 4096 * (i + 1)
            &&& pages[n + i].len == 0
            &&& pages[n + i].writable && !pages[n + i].executable
            &&& 0x1000 + 4096 * n <= 0xF_F000 - 4096 * 4
        }),
{
}

/// Programs that leave room for their stack can be loaded, and no others.
pub proof fn law_loadable(len: int)
    ensures
        loadable(len) <==> 0 < len <= 0xFA000,
{
}

/// A range lies in the user window if its first byte does and no byte of it
/// lies behind the window.
pub proof fn law_window(ptr: u64, len: u64)
    ensures
        in_window(ptr, len) <==> 0x6400_0000_0000 <= ptr && ptr + len <= 0x6400_0400_0000,
{
}

/// As many pages are asked about as the range touches: the first holds its
/// first byte, the last its last.
pub proof fn law_touched_pages(ptr: u64, len: u64)
    requires
        len > 0,
    ensures
        ({
            let first = ptr - ptr as int % 4096;
            let n = pages_touched(ptr, len);
            &&& n >= 1
            &&& first <= ptr
            &&& first + 4096 * (n - 1) <= ptr + len - 1 < first + 4096 * n
        }),
{
}

/// A page may be used that is mapped for user code, and written if it is
/// writable.
pub proof fn law_usable_page(user: bool, writable: bool, write: bool)
    ensures
        !page_ok(None, write),
        page_ok(Some((user, writable)), false) <==> user,
        page_ok(Some((user, writable)), true) <==> user && writable,
{
}

} // verus!
