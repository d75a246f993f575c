//! The runtime of user programs: the syscall convention, request blocks and
//! console lines.

use vstd::prelude::*;
use vstd::string::StringSliceAdditionalSpecFns;
use vstd::utf8::valid_utf8;
use crate::bytes::zeros;
use crate::text::utf8_text;

verus! {

/// Whether a syscall returned an error: errors are the top few values.
pub fn is_err(r: u64) -> (b: bool)
    ensures
        b == (r >= u64::MAX - 15),
{
    r >= u64::MAX - 15
}

/// The task that a lookup found: none for zero or an error.
pub fn lookup_result(r: u64) -> (t: Option<u32>)
    ensures
        t == if r != 0 && r < u64::MAX - 15 { Some((r % 0x1_0000_0000) as u32) } else { None },
{
    if r != 0 && !is_err(r) {
        Some((r % 0x1_0000_0000) as u32)
    } else {
        None
    }
}

/// The kernel's request block layout (96 bytes).
#[derive(Clone, Copy)]
pub struct Rqb {
    pub service: u16,
    pub status: u16,
    pub sender: u32,
    pub receiver: u32,
    pub data_size: u16,
    pub reserved: [u8; 4],
    pub data: [u8; 64],
    pub pad: [u8; 14],
}

impl Rqb {
    /// The payload that the block declares, never more than it holds.
    pub open spec fn declared(self) -> Seq<u8> {
        self.data@.take(if self.data_size < 64 { self.data_size as int } else { 64 })
    }

    /// A request for a service, otherwise zero.
    pub fn new(service: u16) -> (r: Self)
        ensures
            r.service == service,
            r.status == 0,
            r.sender == 0,
            r.receiver == 0,
            r.data_size == 0,
            r.reserved@ =~= zeros(4),
            r.data@ =~= zeros(64),
            r.pad@ =~= zeros(14),
    {
        Rqb {
            service,
            status: 0,
            sender: 0,
            receiver: 0,
            data_size: 0,
            reserved: [0; 4],
            data: [0; 64],
            pad: [0; 14],
        }
    }

    /// The payload.
    pub fn payload(&self) -> (r: &[u8])
        ensures
            r@ == self.declared(),
    {
        let n: usize = if self.data_size < 64 { self.data_size as usize } else { 64 };
        let r = vstd::slice::slice_subrange(self.data.as_slice(), 0, n);
        assert(r@ =~= self.declared());
        r
    }

    /// Sets the payload, truncated to 64 bytes.
    pub fn set_payload(&mut self, bytes: &[u8])
        ensures
            ({
                let n = if bytes@.len() < 64 { bytes@.len() as int } else { 64 };
                &&& final(self).data_size == n
                &&& final(self).declared() == bytes@.take(n)
                &&& final(self).data@ == bytes@.take(n) + old(self).data@.skip(n)
                &&& *final(self) == (Rqb {
                    data_size: final(self).data_size,
                    data: final(self).data,
                    ..*old(self)
                })
            }),
    {
        let n: usize = if bytes.len() < 64 { bytes.len() } else { 64 };
        let mut i: usize = 0;
        while i < n
            invariant
                i <= n <= 64,
                n <= bytes@.len(),
                self.data@ =~= bytes@.take(i as int) + old(self).data@.skip(i as int),
                *self == (Rqb { data: self.data, ..*old(self) }),
            decreases n - i,
        {
            self.data[i] = bytes[i];
            i += 1;
        }
        self.data_size = n as u16;
        assert(self.declared() =~= bytes@.take(n as int));
    }
}

/// Bytes that a line holds.
pub const LINE_SIZE: usize = 192;

/// Fixed-capacity line buffer for formatted output.
pub struct Line {
    buf: [u8; 192],
    len: usize,
}

impl View for Line {
    type V = Seq<u8>;

    closed spec fn view(&self) -> Seq<u8> {
        self.buf@.take(self.len as int)
    }
}

impl Line {
    pub closed spec fn inv(&self) -> bool {
        self.len <= LINE_SIZE
    }

    /// What the invariant says of the text: it keeps to its size.
    pub proof fn lemma_inv(&self)
        requires
            self.inv(),
        ensures
            self@.len() <= LINE_SIZE,
    {
    }

    /// An empty line.
    pub fn new() -> (r: Self)
        ensures
            r.inv(),
            r@ == Seq::<u8>::empty(),
    {
        Line { buf: [0; 192], len: 0 }
    }

    /// The text of the line; a line that was cut inside a character is "?".
    pub fn as_str(&self) -> (r: &str)
        requires
            self.inv(),
        ensures
            valid_utf8(self@) ==> r.spec_bytes() == self@,
            !valid_utf8(self@) ==> r@ == "?"@,
    {
        let used = vstd::slice::slice_subrange(self.buf.as_slice(), 0, self.len);
        assert(used@ =~= self@);
        match utf8_text(used) {
            Some(s) => s,
            None => "?",
        }
    }

    /// Appends what fits of a string.
    pub fn write_str(&mut self, s: &str)
        requires
            old(self).inv(),
        ensures
            final(self).inv(),
            ({
                let room = LINE_SIZE - old(self)@.len();
                let b = s.spec_bytes();
                final(self)@ == old(self)@ + if b.len() < room { b } else { b.take(room) }
            }),
    {
        let b = s.as_bytes();
        let room: usize = LINE_SIZE - self.len;
        let n: usize = if b.len() < room { b.len() } else { room };
        let start: usize = self.len;
        let ghost before = self@;
        let mut i: usize = 0;
        while i < n
            invariant
                i <= n,
                n <= b@.len(),
                start + n <= LINE_SIZE,
                self.len == start,
                before.len() == start,
                self.buf@.take(start as int) == before,
                forall|k: int| 0 <= k < i ==> self.buf@[start + k] == b@[k],
            decreases n - i,
        {
            self.buf[start + i] = b[i];
            assert(self.buf@.take(start as int) =~= before);
            i += 1;
        }
        self.len = start + n;
        assert(self@ =~= before + b@.take(n as int));
        assert(b@.take(b@.len() as int) =~= b@);
    }
}

/// User code takes the errors of the kernel for errors, and no task for one.
pub proof fn law_errors_are_no_tasks(r: u64)
    ensures
        crate::syscall::EFAULT >= u64::MAX - 15,
        crate::syscall::ENOSYS >= u64::MAX - 15,
        crate::syscall::EINVAL >= u64::MAX - 15,
        0 < r <= u32::MAX ==> r < u64::MAX - 15 && r % 0x1_0000_0000 == r,
{
}

/// A block declares no more than it holds, and the payload is its data from
/// the start.
pub proof fn law_declared_payload(b: Rqb, i: int)
    ensures
        b.declared().len() <= 64,
        b.data_size <= 64 ==> b.declared().len() == b.data_size,
        0 <= i < b.declared().len() ==> b.declared()[i] == b.data@[i],
{
}

} // verus!
