//! Syscalls: the interface between user code and the kernel.
//!
//! A syscall has a number and up to five arguments in registers and one
//! return value; every other register is preserved. Every pointer argument is
//! validated against the user window and the page tables before the kernel
//! touches it.

use vstd::prelude::*;
use vstd::string::StringSliceAdditionalSpecFns;
use vstd::utf8::{decode_utf8, encode_utf8_decode_utf8, valid_utf8};
use crate::bytes::{
    le16, le16_bytes, le32_bytes, push_le16, push_le32, read_le16, zeros,
};
use crate::inline::{text16, text16_new, text16_push_str, text16_str};
use crate::ipc::{lookup_service, register_service, registered, registrable, served, Services};
use crate::line::{blank, BoundedLine, LineSize};

use crate::scheduler::rqb::{payload_len, Rqb, RqbStatus, RQB_DATA_SIZE};
use crate::scheduler::task::TaskState;
use crate::scheduler::{receive_rqb, reply_rqb, send_rqb, Scheduler};
use crate::serial::{decimal, write_dec, write_line};
use crate::text::utf8_text;

verus! {

/// Interrupt vector for syscalls.
pub const SYSCALL_VECTOR: u8 = 0x80;

/// Terminate the calling task.
pub const SYS_EXIT: u64 = 0;

/// Write one line to the console.
pub const SYS_LOG: u64 = 1;

/// Send a request and block for the reply; returns its status.
pub const SYS_SEND_RQB: u64 = 2;

/// Block until a request arrives.
pub const SYS_RECEIVE_RQB: u64 = 3;

/// Answer a blocked sender; returns the status.
pub const SYS_REPLY_RQB: u64 = 4;

/// The calling task's ID.
pub const SYS_GET_TID: u64 = 5;

/// Sleep for a number of milliseconds.
pub const SYS_SLEEP_MS: u64 = 6;

/// The task that serves a name, or 0.
pub const SYS_LOOKUP_SERVICE: u64 = 7;

/// Serve a name as the calling task.
pub const SYS_REGISTER_SERVICE: u64 = 8;

/// Give up the CPU.
pub const SYS_YIELD: u64 = 9;

/// Error return: bad pointer.
pub const EFAULT: u64 = 0xFFFF_FFFF_FFFF_FFFF;

/// Error return: unknown syscall.
pub const ENOSYS: u64 = 0xFFFF_FFFF_FFFF_FFFE;

/// Error return: bad argument.
pub const EINVAL: u64 = 0xFFFF_FFFF_FFFF_FFFD;

/// Size of a request block in user memory.
pub const RQB_USER_SIZE: usize = 96;

pub const OFF_SERVICE: usize = 0;

pub const OFF_STATUS: usize = 2;

pub const OFF_SENDER: usize = 4;

pub const OFF_RECEIVER: usize = 8;

pub const OFF_DATA_SIZE: usize = 12;

pub const OFF_DATA: usize = 18;

/// Longest line that a user task may log.
pub const LOG_MAX: u64 = 200;

/// Longest sleep that a user task may ask for, in milliseconds.
pub const SLEEP_MAX: u64 = 3_600_000;

/// `r` is the request block in user memory `b`: sender and receiver are
/// assigned by the kernel, so what user memory holds there is ignored.
pub open spec fn decodes(b: Seq<u8>, r: Rqb) -> bool {
    &&& r.service == le16(b, OFF_SERVICE as int)
    &&& r.status == le16(b, OFF_STATUS as int)
    &&& r.sender_id == 0
    &&& r.receiver_id == 0
    &&& r.data_size == if le16(b, OFF_DATA_SIZE as int) < RQB_DATA_SIZE {
        le16(b, OFF_DATA_SIZE as int)
    } else {
        RQB_DATA_SIZE as int
    }
    &&& r.reserved@ =~= seq![0u16, 0u16]
    &&& r.data@ =~= b.subrange(OFF_DATA as int, OFF_DATA + RQB_DATA_SIZE)
}

/// The request block `r` in user memory.
pub open spec fn encoded(r: Rqb) -> Seq<u8> {
    le16_bytes(r.service) + le16_bytes(r.status) + le32_bytes(r.sender_id) + le32_bytes(
        r.receiver_id,
    ) + le16_bytes(r.data_size) + zeros(4) + r.data@ + zeros(14)
}

/// Reads a request block from its layout in user memory.
pub fn rqb_decode(b: &[u8]) -> (r: Rqb)
    requires
        b@.len() == RQB_USER_SIZE,
    ensures
        decodes(b@, r),
{
    let mut r = Rqb::new();
    r.service = read_le16(b, OFF_SERVICE);
    r.status = read_le16(b, OFF_STATUS);
    let size: u16 = read_le16(b, OFF_DATA_SIZE);
    r.data_size = if size < 64 { size } else { 64 };
    let mut i: usize = 0;
    while i < RQB_DATA_SIZE
        invariant
            i <= RQB_DATA_SIZE,
            b@.len() == RQB_USER_SIZE,
            r.service == le16(b@, OFF_SERVICE as int),
            r.status == le16(b@, OFF_STATUS as int),
            r.sender_id == 0,
            r.receiver_id == 0,
            r.data_size == if size < 64 { size } else { 64 },
            r.reserved@ =~= seq![0u16, 0u16],
            forall|k: int| 0 <= k < i ==> r.data@[k] == b@[OFF_DATA + k],
        decreases RQB_DATA_SIZE - i,
    {
        r.data[i] = b[OFF_DATA + i];
        i += 1;
    }
    r
}

/// Writes a request block in its layout in user memory.
pub fn rqb_encode(r: &Rqb) -> (b: Vec<u8>)
    ensures
        b@ == encoded(*r),
        b@.len() == RQB_USER_SIZE,
{
    let mut b: Vec<u8> = Vec::new();
    push_le16(&mut b, r.service);
    push_le16(&mut b, r.status);
    push_le32(&mut b, r.sender_id);
    push_le32(&mut b, r.receiver_id);
    push_le16(&mut b, r.data_size);
    push_zero_bytes(&mut b, 4);
    b.extend_from_slice(r.data.as_slice());
    push_zero_bytes(&mut b, 14);
    assert(b@ =~= encoded(*r));
    b
}

fn push_zero_bytes(out: &mut Vec<u8>, n: usize)
    ensures
        final(out)@ == old(out)@ + zeros(n as int),
{
    let mut i: usize = 0;
    while i < n
        invariant
            i <= n,
            out@ =~= old(out)@ + zeros(i as int),
        decreases n - i,
    {
        out.push(0);
        i += 1;
    }
}

/// What the kernel writes to user memory reads back: every field but sender
/// and receiver, which are the kernel's, and the payload.
pub proof fn law_encode_then_decode(r: Rqb, back: Rqb)
    requires
        decodes(encoded(r), back),
    ensures
        encoded(r).len() == RQB_USER_SIZE,
        back.service == r.service,
        back.status == r.status,
        back.data_size == payload_len(r.data_size),
        back.data@ == r.data@,
        back.payload() == r.payload(),
{
    let b = encoded(r);
    assert(b.subrange(OFF_DATA as int, OFF_DATA + RQB_DATA_SIZE) =~= r.data@);
    assert(le16(b, 0) == r.service);
    assert(le16(b, 2) == r.status);
    assert(le16(b, 12) == r.data_size);
    assert(back.payload() =~= r.payload());
}

/// What a syscall asks for.
#[derive(Debug, Clone, Copy, PartialEq, Eq, Structural)]
pub enum Syscall {
    Exit,
    Log { ptr: u64, len: u64 },
    SendRqb { tid: u64, ptr: u64 },
    ReceiveRqb { ptr: u64 },
    ReplyRqb { tid: u64, ptr: u64 },
    GetTid,
    SleepMs { ms: u64 },
    LookupService { ptr: u64, len: u64 },
    RegisterService { ptr: u64, len: u64 },
    Yield,
    Unknown,
}

/// What syscall number `n` with arguments `a1` and `a2` asks for.
pub open spec fn syscall_of(n: u64, a1: u64, a2: u64) -> Syscall {
    if n == SYS_EXIT {
        Syscall::Exit
    } else if n == SYS_LOG {
        Syscall::Log { ptr: a1, len: a2 }
    } else if n == SYS_SEND_RQB {
        Syscall::SendRqb { tid: a1, ptr: a2 }
    } else if n == SYS_RECEIVE_RQB {
        Syscall::ReceiveRqb { ptr: a1 }
    } else if n == SYS_REPLY_RQB {
        Syscall::ReplyRqb { tid: a1, ptr: a2 }
    } else if n == SYS_GET_TID {
        Syscall::GetTid
    } else if n == SYS_SLEEP_MS {
        Syscall::SleepMs { ms: if a1 < SLEEP_MAX { a1 } else { SLEEP_MAX } }
    } else if n == SYS_LOOKUP_SERVICE {
        Syscall::LookupService { ptr: a1, len: a2 }
    } else if n == SYS_REGISTER_SERVICE {
        Syscall::RegisterService { ptr: a1, len: a2 }
    } else if n == SYS_YIELD {
        Syscall::Yield
    } else {
        Syscall::Unknown
    }
}

/// Decodes a syscall. A sleep is limited to an hour; the return value of an
/// unknown one is `ENOSYS`.
pub fn syscall_dispatch(n: u64, a1: u64, a2: u64) -> (r: Syscall)
    ensures
        r == syscall_of(n, a1, a2),
{
    if n == SYS_EXIT {
        Syscall::Exit
    } else if n == SYS_LOG {
        Syscall::Log { ptr: a1, len: a2 }
    } else if n == SYS_SEND_RQB {
        Syscall::SendRqb { tid: a1, ptr: a2 }
    } else if n == SYS_RECEIVE_RQB {
        Syscall::ReceiveRqb { ptr: a1 }
    } else if n == SYS_REPLY_RQB {
        Syscall::ReplyRqb { tid: a1, ptr: a2 }
    } else if n == SYS_GET_TID {
        Syscall::GetTid
    } else if n == SYS_SLEEP_MS {
        Syscall::SleepMs { ms: if a1 < SLEEP_MAX { a1 } else { SLEEP_MAX } }
    } else if n == SYS_LOOKUP_SERVICE {
        Syscall::LookupService { ptr: a1, len: a2 }
    } else if n == SYS_REGISTER_SERVICE {
        Syscall::RegisterService { ptr: a1, len: a2 }
    } else if n == SYS_YIELD {
        Syscall::Yield
    } else {
        Syscall::Unknown
    }
}

/// A byte as it is logged: line feeds, spaces and visible ASCII characters
/// stay, anything else is a question mark.
pub open spec fn printable(b: u8) -> u8 {
    if b == 10 || 0x20 <= b <= 0x7E {
        b
    } else {
        0x3F
    }
}

/// The line that a task's log call prints: its ID and privilege level, the
/// text, and a line feed if the text has none at its end.
pub open spec fn log_line(tid: u32, cpl: u64, text: Seq<u8>) -> Seq<u8> {
    let line = "[USER T".spec_bytes() + decimal(tid as nat) + " CPL".spec_bytes() + decimal(cpl as nat)
        + "] ".spec_bytes() + text.map_values(|b: u8| printable(b));
    if line.last() == 10 {
        line
    } else {
        line.push(10)
    }
}

/// A log call of a task with ID `tid` at privilege level `cpl`, with the text
/// copied from user memory (`None` where that failed): the line to print, if
/// any, and the return value.
pub fn sys_log(len: u64, text: Option<&[u8]>, tid: u32, cpl: u64) -> (r: (Option<Vec<u8>>, u64))
    requires
        len <= LOG_MAX && text is Some ==> text->0@.len() == len,
    ensures
        if len > LOG_MAX {
            r.0 is None && r.1 == EINVAL
        } else if text is None {
            r.0 is None && r.1 == EFAULT
        } else {
            r.0 is Some && r.0->0@ == log_line(tid, cpl, text->0@) && r.1 == len
        },
{
    if len > LOG_MAX {
        return (None, EINVAL);
    }
    let t: &[u8] = match text {
        Some(t) => t,
        None => {
            return (None, EFAULT);
        },
    };
    let mut line: Vec<u8> = Vec::new();
    line.extend_from_slice("[USER T".as_bytes());
    write_dec(&mut line, tid as u64);
    line.extend_from_slice(" CPL".as_bytes());
    write_dec(&mut line, cpl);
    line.extend_from_slice("] ".as_bytes());
    proof {
        reveal_strlit("] ");
        vstd::string::is_ascii_spec_bytes("] ");
    }
    let ghost head = line@;
    assert(head =~= "[USER T".spec_bytes() + decimal(tid as nat) + " CPL".spec_bytes() + decimal(
        cpl as nat,
    ) + "] ".spec_bytes());
    let mut i: usize = 0;
    while i < t.len()
        invariant
            i <= t@.len(),
            line@ =~= head + t@.take(i as int).map_values(|b: u8| printable(b)),
        decreases t@.len() - i,
    {
        let b: u8 = t[i];
        line.push(if b == 10 || (0x20 <= b && b <= 0x7E) { b } else { 0x3F });
        i += 1;
    }
    assert(t@.take(i as int) =~= t@);
    assert(line@.len() > 0);
    if line[line.len() - 1] != 10 {
        line.push(10);
    }
    (Some(line), len)
}

/// What is printed when a task exits by itself.
pub open spec fn exit_text(tid: u32, name: Seq<u8>) -> Seq<u8> {
    "[USER] T".spec_bytes() + decimal(tid as nat) + " \"".spec_bytes() + name + "\" exited\n".spec_bytes()
}

/// The same as it fits a line of 96 bytes.
pub open spec fn exit_line(tid: u32, name: Seq<u8>) -> Seq<u8> {
    blank(96).put("[USER] T".spec_bytes()).put(decimal(tid as nat)).put(" \"".spec_bytes()).put(
        name,
    ).put("\" exited\n".spec_bytes()).bytes
}

/// The line that is printed when a task exits by itself.
pub fn sys_exit(tid: u32, name: &str) -> (r: Vec<u8>)
    ensures
        r@ == exit_line(tid, name.spec_bytes()),
        exit_text(tid, name.spec_bytes()).len() <= 96 ==> r@ =~= exit_text(tid, name.spec_bytes()),
{
    let mut line = BoundedLine::new(LineSize::Bytes96);
    line.text("[USER] T");
    line.dec(tid as u64);
    line.text(" \"");
    line.text(name);
    line.text("\" exited\n");
    line.into_bytes()
}

/// How a send of a user task goes on.
pub enum SendStep {
    /// The buffer is bad; the call returns `EFAULT` and nothing was sent.
    Fault,
    /// The request was refused: the block goes back to user memory, and the
    /// call returns the status.
    Refused { rqb: Rqb, status: RqbStatus },
    /// The task is blocked for the reply. `rqb` is what was sent.
    Blocked { rqb: Rqb, kick: Option<u32> },
}

/// Sends the request block `bytes` that was read from user memory (`None`
/// where that failed). `writable` says whether the buffer can take the reply;
/// that is checked before sending, so that a bad pointer can't strand a
/// request.
pub fn sys_send_rqb(
    s: &mut Scheduler,
    cpu: usize,
    tid: u64,
    writable: bool,
    bytes: Option<&[u8]>,
    apic: bool,
) -> (r: SendStep)
    requires
        old(s)@.inv(),
        old(s)@.running(cpu),
        bytes is Some ==> bytes->0@.len() == RQB_USER_SIZE,
    ensures
        final(s)@.inv(),
        ({
            let to = (tid % 0x1_0000_0000) as u32;
            if !writable || bytes is None {
                r is Fault && final(s)@ == old(s)@
            } else {
                match old(s)@.request_refused(cpu, to) {
                    Some(e) => {
                        &&& r is Refused
                        &&& r->Refused_status == e
                        &&& r->Refused_rqb.status == e.spec_code()
                        &&& final(s)@ == old(s)@
                        &&& exists|q: Rqb|
                            #[trigger] decodes(bytes->0@, q) && r->Refused_rqb == (Rqb {
                                status: e.spec_code(),
                                ..q
                            })
                    },
                    None => {
                        &&& r is Blocked
                        &&& decodes(bytes->0@, r->Blocked_rqb)
                        &&& final(s)@ == old(s)@.request_posted(cpu, to, r->Blocked_rqb)
                        &&& r->Blocked_kick == if apic && old(s)@.tasks[old(s)@.find_live(to)->0].state
                            == TaskState::WaitingRqb {
                            old(s)@.find_idle_cpu(cpu)
                        } else {
                            None
                        }
                    },
                }
            }
        }),
{
    if !writable {
        return SendStep::Fault;
    }
    match bytes {
        None => SendStep::Fault,
        Some(b) => {
            let mut rqb = rqb_decode(b);
            let ghost sent = rqb;
            match send_rqb(s, cpu, (tid % 0x1_0000_0000) as u32, &mut rqb, apic) {
                Ok(kick) => SendStep::Blocked { rqb, kick },
                Err(status) => {
                    assert(decodes(b@, sent));
                    SendStep::Refused { rqb, status }
                },
            }
        },
    }
}

/// The return value of a send once its reply, or the refused request, was
/// copied to user memory or not.
pub fn sys_send_done(status: RqbStatus, copied: bool) -> (r: u64)
    ensures
        r == if copied { status.spec_code() as u64 } else { EFAULT },
{
    if copied {
        status.code() as u64
    } else {
        EFAULT
    }
}

/// How a receive of a user task goes on.
pub enum ReceiveStep {
    /// The buffer is bad; the call returns `EFAULT` and nothing was taken.
    Fault,
    /// The task is blocked; it yields and asks again.
    Blocked,
    /// The request, to be copied to user memory.
    Request(Rqb),
}

/// Takes the oldest request for the task on `cpu`, if the buffer can hold it:
/// once a request is taken it must be delivered, for its sender is blocked.
pub fn sys_receive_rqb(s: &mut Scheduler, cpu: usize, writable: bool) -> (r: ReceiveStep)
    requires
        old(s)@.inv(),
        old(s)@.running(cpu),
    ensures
        final(s)@.inv(),
        final(s)@ == if writable { old(s)@.request_taken(cpu, true) } else { old(s)@ },
        ({
            let inbox = old(s)@.tasks[old(s)@.current(cpu)].inbox;
            r == if !writable {
                ReceiveStep::Fault
            } else if inbox.len() > 0 {
                ReceiveStep::Request(inbox[0])
            } else {
                ReceiveStep::Blocked
            }
        }),
{
    if !writable {
        return ReceiveStep::Fault;
    }
    match receive_rqb(s, cpu) {
        Some(req) => ReceiveStep::Request(req),
        None => ReceiveStep::Blocked,
    }
}

/// The end of a receive. A request that could not be copied to user memory is
/// failed, rather than leaving its sender blocked forever. Gives the return
/// value and a CPU to kick.
pub fn sys_receive_done(s: &mut Scheduler, cpu: usize, req: &Rqb, copied: bool, apic: bool) -> (r: (
    u64,
    Option<u32>,
))
    requires
        old(s)@.inv(),
        old(s)@.running(cpu),
    ensures
        final(s)@.inv(),
        copied ==> r == (0u64, None::<u32>) && final(s)@ == old(s)@,
        !copied ==> r.0 == EFAULT && match old(s)@.reply_refused(cpu, req.sender_id) {
            Some(_) => r.1 is None && final(s)@ == old(s)@,
            None => r.1 == (if apic { old(s)@.find_idle_cpu(cpu) } else { None }) && exists|fail: Rqb|
                fail.status == RqbStatus::GeneralFailure.spec_code() && (Rqb { status: 0, ..fail }).is_blank()
                    && final(s)@ == #[trigger] old(s)@.reply_posted(cpu, req.sender_id, fail),
        },
{
    if copied {
        return (0, None);
    }
    let mut fail = Rqb::new();
    fail.set_status(RqbStatus::GeneralFailure);
    let (_, kick) = reply_rqb(s, cpu, req.sender_id, &fail, apic);
    (EFAULT, kick)
}

/// Replies with the request block `bytes` that was read from user memory.
/// Gives the return value and a CPU to kick.
pub fn sys_reply_rqb(s: &mut Scheduler, cpu: usize, tid: u64, bytes: Option<&[u8]>, apic: bool) -> (r: (
    u64,
    Option<u32>,
))
    requires
        old(s)@.inv(),
        old(s)@.running(cpu),
        bytes is Some ==> bytes->0@.len() == RQB_USER_SIZE,
    ensures
        final(s)@.inv(),
        ({
            let to = (tid % 0x1_0000_0000) as u32;
            match bytes {
                None => r == (EFAULT, None::<u32>) && final(s)@ == old(s)@,
                Some(b) => match old(s)@.reply_refused(cpu, to) {
                    Some(e) => r == (e.spec_code() as u64, None::<u32>) && final(s)@ == old(s)@,
                    None => r.0 == 0 && r.1 == (if apic { old(s)@.find_idle_cpu(cpu) } else { None })
                        && exists|q: Rqb|
                        #[trigger] decodes(b@, q) && final(s)@ == old(s)@.reply_posted(cpu, to, q),
                },
            }
        }),
{
    match bytes {
        None => (EFAULT, None),
        Some(b) => {
            let rqb = rqb_decode(b);
            let (status, kick) = reply_rqb(s, cpu, (tid % 0x1_0000_0000) as u32, &rqb, apic);
            assert(decodes(b@, rqb));
            (status.code() as u64, kick)
        },
    }
}

/// The service name in user memory: 1 to 16 bytes of UTF-8. `bytes` is what
/// was copied, `None` where that failed.
pub open spec fn user_name_of(len: u64, bytes: Option<Seq<u8>>) -> Option<Seq<char>> {
    if len == 0 || len > 16 || bytes is None || !valid_utf8(bytes->0) {
        None
    } else {
        Some(decode_utf8(bytes->0))
    }
}

/// What a copy from user memory holds.
pub open spec fn copied_bytes(bytes: Option<&[u8]>) -> Option<Seq<u8>> {
    match bytes {
        Some(b) => Some(b@),
        None => None,
    }
}

/// Takes a service name in from user memory.
fn user_name(len: u64, bytes: Option<&[u8]>) -> (r: Option<heapless::String<16>>)
    requires
        1 <= len <= 16 && bytes is Some ==> bytes->0@.len() == len,
    ensures
        match r {
            Some(n) => user_name_of(len, copied_bytes(bytes)) == Some(text16(n)),
            None => user_name_of(len, copied_bytes(bytes)) is None,
        },
{
    if len == 0 || len > 16 {
        return None;
    }
    let b: &[u8] = match bytes {
        Some(b) => b,
        None => {
            return None;
        },
    };
    let s: &str = match utf8_text(b) {
        Some(s) => s,
        None => {
            return None;
        },
    };
    proof {
        encode_utf8_decode_utf8(s@);
        assert(vstd::utf8::encode_utf8(Seq::<char>::empty()).len() == 0);
        assert(Seq::<char>::empty() + s@ =~= s@);
    }
    let mut out = text16_new();
    if text16_push_str(&mut out, s) {
        Some(out)
    } else {
        None
    }
}

/// Looks a service up for a user task: its task ID, 0 for an unknown name,
/// `EFAULT` for a bad one.
pub fn sys_lookup_service(services: &Services, len: u64, bytes: Option<&[u8]>) -> (r: u64)
    requires
        1 <= len <= 16 && bytes is Some ==> bytes->0@.len() == len,
    ensures
        r == match user_name_of(len, copied_bytes(bytes)) {
            None => EFAULT,
            Some(n) => match served(services@, n) {
                Some(tid) => tid as u64,
                None => 0,
            },
        },
{
    match user_name(len, bytes) {
        Some(n) => match lookup_service(services, text16_str(&n)) {
            Some(tid) => tid as u64,
            None => 0,
        },
        None => EFAULT,
    }
}

/// Registers a service for the user task `tid`: 0, `EINVAL` for a name that
/// cannot be registered, `EFAULT` for a bad one.
pub fn sys_register_service(services: &mut Services, len: u64, bytes: Option<&[u8]>, tid: u32) -> (r: u64)
    requires
        1 <= len <= 16 && bytes is Some ==> bytes->0@.len() == len,
    ensures
        match user_name_of(len, copied_bytes(bytes)) {
            None => r == EFAULT && final(services)@ == old(services)@,
            Some(n) => if registrable(n) {
                r == 0 && final(services)@ == registered(old(services)@, n, tid)
            } else {
                r == EINVAL && final(services)@ == old(services)@
            },
        },
{
    match user_name(len, bytes) {
        Some(n) => if register_service(services, text16_str(&n), tid) {
            0
        } else {
            EINVAL
        },
        None => EFAULT,
    }
}

/// Reports the syscall interface at boot.
pub fn init(out: &mut Vec<u8>)
    ensures
        final(out)@ == old(out)@ + crate::serial::sent(
            "[SYSCALL] int 0x80 gate (DPL 3): 10 syscalls, user pointers validated".spec_bytes(),
        ) + seq![10u8],
{
    write_line(
        out,
        "[SYSCALL] int 0x80 gate (DPL 3): 10 syscalls, user pointers validated",
    );
}

/// The calls and their numbers: each number asks for its own call, with its
/// arguments in their order, and every other number for none.
pub proof fn law_syscall_numbers(n: u64, a1: u64, a2: u64)
    ensures
        syscall_of(0, a1, a2) == Syscall::Exit,
        syscall_of(1, a1, a2) == (Syscall::Log { ptr: a1, len: a2 }),
        syscall_of(2, a1, a2) == (Syscall::SendRqb { tid: a1, ptr: a2 }),
        syscall_of(3, a1, a2) == (Syscall::ReceiveRqb { ptr: a1 }),
        syscall_of(4, a1, a2) == (Syscall::ReplyRqb { tid: a1, ptr: a2 }),
        syscall_of(5, a1, a2) == Syscall::GetTid,
        a1 <= 3_600_000 ==> syscall_of(6, a1, a2) == (Syscall::SleepMs { ms: a1 }),
        a1 > 3_600_000 ==> syscall_of(6, a1, a2) == (Syscall::SleepMs { ms: 3_600_000 }),
        syscall_of(7, a1, a2) == (Syscall::LookupService { ptr: a1, len: a2 }),
        syscall_of(8, a1, a2) == (Syscall::RegisterService { ptr: a1, len: a2 }),
        syscall_of(9, a1, a2) == Syscall::Yield,
        n > 9 ==> syscall_of(n, a1, a2) == Syscall::Unknown,
{
}

/// The numbers by their names: a call asks for what its name says.
pub proof fn law_syscalls_do_what_they_are_called(a1: u64, a2: u64)
    ensures
        syscall_of(SYS_EXIT, a1, a2) is Exit,
        syscall_of(SYS_LOG, a1, a2) is Log,
        syscall_of(SYS_SEND_RQB, a1, a2) is SendRqb,
        syscall_of(SYS_RECEIVE_RQB, a1, a2) is ReceiveRqb,
        syscall_of(SYS_REPLY_RQB, a1, a2) is ReplyRqb,
        syscall_of(SYS_GET_TID, a1, a2) is GetTid,
        syscall_of(SYS_SLEEP_MS, a1, a2) is SleepMs,
        syscall_of(SYS_LOOKUP_SERVICE, a1, a2) is LookupService,
        syscall_of(SYS_REGISTER_SERVICE, a1, a2) is RegisterService,
        syscall_of(SYS_YIELD, a1, a2) is Yield,
{
}

/// The error returns lie among the top values, by which user code knows them,
/// and differ.
pub proof fn law_error_returns()
    ensures
        EFAULT == u64::MAX,
        ENOSYS == u64::MAX - 1,
        EINVAL == u64::MAX - 2,
{
}

/// Where the fields of a request block lie in user memory: service, status,
/// sender, receiver and size of the data, low bytes first, at bytes 0, 2, 4, 8
/// and 12; the data at byte 18; zeros elsewhere.
pub proof fn law_request_block_layout(r: Rqb, i: int)
    requires
        0 <= i < 64,
    ensures
        ({
            let b = encoded(r);
            &&& b.len() == 96
            &&& r.service == b[0] + 0x100 * b[1]
            &&& r.status == b[2] + 0x100 * b[3]
            &&& r.sender_id == b[4] + 0x100 * b[5] + 0x1_0000 * b[6] + 0x100_0000 * b[7]
            &&& r.receiver_id == b[8] + 0x100 * b[9] + 0x1_0000 * b[10] + 0x100_0000 * b[11]
            &&& r.data_size == b[12] + 0x100 * b[13]
            &&& b[14] == 0 && b[15] == 0 && b[16] == 0 && b[17] == 0
            &&& b[18 + i] == r.data@[i]
            &&& forall|k: int| 82 <= k < 96 ==> #[trigger] b[k] == 0
        }),
{
    crate::bytes::law_byte_order_written(r.service, r.sender_id, 0);
    crate::bytes::law_byte_order_written(r.status, r.receiver_id, 0);
    crate::bytes::law_byte_order_written(r.data_size, 0, 0);
    let b = encoded(r);
    let s = le32_bytes(r.sender_id);
    let t = le32_bytes(r.receiver_id);
    assert(b[4] == s[0] && b[5] == s[1] && b[6] == s[2] && b[7] == s[3]);
    assert(b[8] == t[0] && b[9] == t[1] && b[10] == t[2] && b[11] == t[3]);
}

/// What the kernel takes of a request block in user memory: service, status,
/// the size of the data, at most 64, and the data. Sender and receiver it does
/// not believe.
pub proof fn law_request_block_taken(b: Seq<u8>, r: Rqb, i: int)
    requires
        b.len() == 96,
        decodes(b, r),
        0 <= i < 64,
    ensures
        r.service == b[0] + 0x100 * b[1],
        r.status == b[2] + 0x100 * b[3],
        r.sender_id == 0,
        r.receiver_id == 0,
        r.data_size <= 64,
        b[13] == 0 && b[12] <= 64 ==> r.data_size == b[12],
        b[13] > 0 || b[12] > 64 ==> r.data_size == 64,
        r.reserved@[0] == 0 && r.reserved@[1] == 0,
        r.data@[i] == b[18 + i],
{
}

/// What a user task logs is printed as it is, but that no byte reaches the
/// console that could move its cursor or change its state; and it ends its
/// line.
pub proof fn law_logged_text_is_harmless(tid: u32, cpl: u64, text: Seq<u8>, i: int)
    requires
        0 <= i < text.len(),
    ensures
        ({
            let line = log_line(tid, cpl, text);
            let head = "[USER T".spec_bytes() + decimal(tid as nat) + " CPL".spec_bytes() + decimal(
                cpl as nat,
            ) + "] ".spec_bytes();
            let c = line[head.len() + i];
            &&& head.is_prefix_of(line)
            &&& c == 10 || 32 <= c <= 126
            &&& text[i] == 10 || 32 <= text[i] <= 126 ==> c == text[i]
            &&& !(text[i] == 10 || 32 <= text[i] <= 126) ==> c == 63
            &&& line.last() == 10
            &&& line.len() == head.len() + text.len() + if text.last() == 10 {
                0int
            } else {
                1int
            }
        }),
{
}

/// A service's name is taken from a user exactly if it is said to have 1 to 16 bytes, its bytes could
/// be read and are text; it is then that text.
pub proof fn law_names_from_users(len: u64, bytes: Seq<u8>)
    ensures
        user_name_of(len, None) is None,
        user_name_of(len, Some(bytes)) is Some <==> 1 <= len <= 16 && valid_utf8(bytes),
        user_name_of(len, Some(bytes)) is Some ==> user_name_of(len, Some(bytes)) == Some(
            decode_utf8(bytes),
        ),
{
}

/// The line of a task that ends begins with its number and has its name behind it.
pub proof fn law_exit_text(tid: u32, name: Seq<u8>)
    ensures
        ("[USER] T".spec_bytes() + decimal(tid as nat)).is_prefix_of(exit_text(tid, name)),
        (name + "\" exited\n".spec_bytes()).is_suffix_of(exit_text(tid, name)),
        exit_text(tid, name).len() == exit_text(tid, Seq::empty()).len() + name.len(),
{
}

} // verus!
