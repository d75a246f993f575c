//! User-mode programs: fault reports, the kernel-side service, and the checks
//! of the boot-time demonstration.

use vstd::prelude::*;
use vstd::string::StringSliceAdditionalSpecFns;
use vstd::utf8::encode_utf8;
use crate::bytes::same_bytes;
use crate::ipc::{uppercase, uppercased};
use crate::line::{blank, BoundedLine, LineSize};
use crate::scheduler::rqb::{Rqb, RqbStatus, RQB_DATA_SIZE, SVC_SYS_INFO};
use crate::scheduler::task::TaskState;
use crate::scheduler::SCHEDULER_FREQUENCY_HZ;
use crate::serial::{decimal, hex, mark, padded, write_dec, write_mark, write_padded};

verus! {

/// The report of a fault in user code.
pub open spec fn fault_text(tid: u32, name: Seq<u8>, what: Seq<u8>, pc: u64, addr: Option<u64>) -> Seq<u8> {
    "[USER] T".spec_bytes() + decimal(tid as nat) + " \"".spec_bytes() + name + "\" killed: ".spec_bytes()
        + what + " at pc=0x".spec_bytes() + hex(pc as nat) + match addr {
        Some(a) => ", addr=0x".spec_bytes() + hex(a as nat),
        None => Seq::empty(),
    } + "\n".spec_bytes()
}

/// The same as it fits a line of 160 bytes.
pub open spec fn fault_line(tid: u32, name: Seq<u8>, what: Seq<u8>, pc: u64, addr: Option<u64>) -> Seq<u8> {
    let head = blank(160).put("[USER] T".spec_bytes()).put(decimal(tid as nat)).put(
        " \"".spec_bytes(),
    ).put(name).put("\" killed: ".spec_bytes()).put(what).put(" at pc=0x".spec_bytes()).put(
        hex(pc as nat),
    );
    let whole = match addr {
        Some(a) => head.next_write().put(", addr=0x".spec_bytes()).put(hex(a as nat)),
        None => head,
    };
    whole.next_write().put("\n".spec_bytes()).bytes
}

/// The report of a fault in user code; the task is then killed.
pub fn kill_faulting_task(tid: u32, name: &str, what: &str, pc: u64, addr: Option<u64>) -> (r: Vec<u8>)
    ensures
        r@ == fault_line(tid, name.spec_bytes(), what.spec_bytes(), pc, addr),
        ({
            let text = fault_text(tid, name.spec_bytes(), what.spec_bytes(), pc, addr);
            text.len() <= 160 ==> r@ =~= text
        }),
{
    let mut line = BoundedLine::new(LineSize::Bytes160);
    line.text("[USER] T");
    line.dec(tid as u64);
    line.text(" \"");
    line.text(name);
    line.text("\" killed: ");
    line.text(what);
    line.text(" at pc=0x");
    line.hex(pc);
    if let Some(a) = addr {
        line.next_write();
        line.text(", addr=0x");
        line.hex(a);
    }
    line.next_write();
    line.text("\n");
    line.into_bytes()
}

/// Text of the system information: the kernel's name and version, the number
/// of CPUs and the time since boot.
pub open spec fn info_text(name: Seq<u8>, version: Seq<u8>, cpus: nat, up_ms: nat) -> Seq<u8> {
    name + " v".spec_bytes() + version + ": ".spec_bytes() + decimal(cpus) + " CPUs, up ".spec_bytes()
        + decimal(up_ms) + " ms".spec_bytes()
}

/// The same as it fits a message.
pub open spec fn info_line(name: Seq<u8>, version: Seq<u8>, cpus: nat, up_ms: nat) -> Seq<u8> {
    blank(RQB_DATA_SIZE as nat).put(name).put(" v".spec_bytes()).put(version).put(
        ": ".spec_bytes(),
    ).put(decimal(cpus)).put(" CPUs, up ".spec_bytes()).put(decimal(up_ms)).put(
        " ms".spec_bytes(),
    ).bytes
}

/// The answer of the system information service to a request.
pub fn sysinfo_service_task(req: &Rqb, name: &str, version: &str, cpus: u64, jiffies: u64) -> (r: Rqb)
    requires
        jiffies * 1000 <= u64::MAX,
    ensures
        if req.service == SVC_SYS_INFO {
            let up_ms = (jiffies * 1000 / (SCHEDULER_FREQUENCY_HZ as int)) as nat;
            let text = info_text(name.spec_bytes(), version.spec_bytes(), cpus as nat, up_ms);
            &&& r.composed(
                req.service,
                RqbStatus::Success,
                info_line(name.spec_bytes(), version.spec_bytes(), cpus as nat, up_ms),
            )
            &&& text.len() <= RQB_DATA_SIZE ==> r.payload() =~= text
        } else {
            r.composed(req.service, RqbStatus::InvalidService, Seq::empty())
        },
{
    let mut resp = Rqb::with_service(req.service);
    if req.service == SVC_SYS_INFO {
        let up_ms: u64 = jiffies * 1000 / SCHEDULER_FREQUENCY_HZ as u64;
        let mut line = BoundedLine::new(LineSize::Bytes64);
        line.text(name);
        line.text(" v");
        line.text(version);
        line.text(": ");
        line.dec(cpus);
        line.text(" CPUs, up ");
        line.dec(up_ms);
        line.text(" ms");
        let text: Vec<u8> = line.into_bytes();
        resp.set_data(text.as_slice());
        assert(text@.subrange(0, text@.len() as int) =~= text@);
        resp.set_status(RqbStatus::Success);
    } else {
        resp.set_status(RqbStatus::InvalidService);
    }
    resp
}

/// How a wait goes on.
#[derive(Debug, Clone, Copy, PartialEq, Eq, Structural)]
pub enum WaitStep {
    /// The condition holds.
    Met,
    /// The time is over.
    TimedOut,
    /// Sleep 20 ms, then ask again with that much waited.
    Again { waited: u64 },
}

/// One round of polling a condition every 20 ms for up to `ms`.
pub fn wait_until(cond: bool, waited: u64, ms: u64) -> (r: WaitStep)
    requires
        waited < ms ==> waited + 20 <= u64::MAX,
    ensures
        r == if cond {
            WaitStep::Met
        } else if waited >= ms {
            WaitStep::TimedOut
        } else {
            WaitStep::Again { waited: (waited + 20) as u64 }
        },
{
    if cond {
        WaitStep::Met
    } else if waited >= ms {
        WaitStep::TimedOut
    } else {
        WaitStep::Again { waited: waited + 20 }
    }
}

/// Whether a task has exited.
pub fn exited(state: Option<TaskState>) -> (r: bool)
    ensures
        r == (state == Some(TaskState::Exited)),
{
    match state {
        Some(st) => st == TaskState::Exited,
        None => false,
    }
}

/// The payload of the `i`th request to the user-mode echo service.
pub open spec fn echo_payload(i: u64) -> Seq<u8> {
    "kernel to user mode #".spec_bytes() + decimal(i as nat)
}

/// The `i`th request to the user-mode echo service.
pub fn echo_request(i: u64) -> (r: Rqb)
    requires
        i < 10,
    ensures
        r.composed(0x0400, RqbStatus::Success, echo_payload(i)),
{
    let mut payload: Vec<u8> = Vec::new();
    payload.extend_from_slice("kernel to user mode #".as_bytes());
    write_dec(&mut payload, i);
    assert(payload@ =~= echo_payload(i));
    let mut rqb = Rqb::with_service(0x0400);
    proof {
        reveal_strlit("kernel to user mode #");
        vstd::string::is_ascii_spec_bytes("kernel to user mode #");
        assert(decimal(i as nat).len() == 1);
    }
    rqb.set_data(payload.as_slice());
    assert(payload@.subrange(0, payload@.len() as int) =~= payload@);
    assert(rqb.composed(0x0400, RqbStatus::Success, echo_payload(i)));
    rqb
}

/// Whether the reply to the `i`th request is right: successful, from the
/// service, and in upper case.
pub fn echo_accepts(i: u64, svc: u32, status: RqbStatus, reply: &Rqb) -> (r: bool)
    ensures
        r == echo_right(i, svc, status, *reply),
{
    let mut payload: Vec<u8> = Vec::new();
    payload.extend_from_slice("kernel to user mode #".as_bytes());
    write_dec(&mut payload, i);
    assert(payload@ =~= echo_payload(i));
    let expect = uppercase(payload.as_slice());
    status == RqbStatus::Success && reply.sender_id == svc && same_bytes(
        reply.get_data(),
        expect.as_slice(),
    )
}

/// How many requests the echo service gets.
pub const ECHOES: u32 = 3;

/// The reply to the `i`th request to the echo service is right.
pub open spec fn echo_right(i: u64, svc: u32, status: RqbStatus, reply: Rqb) -> bool {
    status == RqbStatus::Success && reply.sender_id == svc && reply.payload() == uppercased(
        echo_payload(i),
    )
}

/// The client of the user-mode echo service: it sends its requests one after
/// the other and holds every reply against what it asked for.
#[derive(Debug, Clone, Copy, PartialEq, Eq, Structural)]
pub struct EchoClient {
    /// The service's task.
    pub svc: u32,
    /// How many requests were answered.
    pub done: u32,
    /// How many of the answers were right.
    pub ok: u32,
}

impl EchoClient {
    pub open spec fn wf(self) -> bool {
        self.ok <= self.done <= ECHOES
    }

    /// A client that has sent nothing.
    pub fn new(svc: u32) -> (r: Self)
        ensures
            r.wf(),
            r == (EchoClient { svc, done: 0, ok: 0 }),
    {
        EchoClient { svc, done: 0, ok: 0 }
    }

    /// The request that is sent next; `None` once all are answered.
    pub fn next_request(&self) -> (r: Option<Rqb>)
        ensures
            match r {
                None => self.done >= ECHOES,
                Some(q) => {
                    &&& self.done < ECHOES
                    &&& q.composed(0x0400, RqbStatus::Success, echo_payload(self.done as u64))
                },
            },
    {
        if self.done < ECHOES {
            Some(echo_request(self.done as u64))
        } else {
            None
        }
    }

    /// Takes the reply to the request.
    pub fn replied(&mut self, status: RqbStatus, reply: &Rqb) -> (right: bool)
        requires
            old(self).wf(),
            old(self).done < ECHOES,
        ensures
            final(self).wf(),
            right == echo_right(old(self).done as u64, old(self).svc, status, *reply),
            *final(self) == (EchoClient {
                done: (old(self).done + 1) as u32,
                ok: (old(self).ok + if right {
                    1int
                } else {
                    0int
                }) as u32,
                ..*old(self)
            }),
    {
        let right = echo_accepts(self.done as u64, self.svc, status, reply);
        self.done = self.done + 1;
        if right {
            self.ok = self.ok + 1;
        }
        right
    }

    /// Whether a registered service answered all requests rightly.
    pub fn passed(&self) -> (r: bool)
        ensures
            r == (self.svc != 0 && self.ok == ECHOES),
    {
        self.svc != 0 && self.ok == ECHOES
    }
}

/// Whether the userspace demonstration passed: all echoes of a registered
/// service, every program exited, and the request to a service that exited
/// was aborted.
pub fn user_check_task(
    uecho: u32,
    echoed: u32,
    programs_exited: &[bool],
    all_done: bool,
    shutdown: RqbStatus,
) -> (r: bool)
    ensures
        r == (uecho != 0 && echoed == ECHOES && (forall|i: int|
            0 <= i < programs_exited@.len() ==> #[trigger] programs_exited@[i]) && all_done
            && shutdown == RqbStatus::Aborted),
{
    let mut every = true;
    let mut i: usize = 0;
    while i < programs_exited.len()
        invariant
            i <= programs_exited@.len(),
            every == forall|k: int| 0 <= k < i ==> #[trigger] programs_exited@[k],
        decreases programs_exited@.len() - i,
    {
        every = every && programs_exited[i];
        i += 1;
    }
    uecho != 0 && echoed == ECHOES && every && all_done && shutdown == RqbStatus::Aborted
}

/// A user program of the demonstration.
#[derive(Debug, Clone, Copy, PartialEq, Eq, Structural)]
pub enum Program {
    Echo,
    Hello,
    Spinner,
    RogueRead,
    RoguePriv,
    RoguePtr,
}

impl Program {
    pub open spec fn text(self) -> Seq<char> {
        match self {
            Program::Echo => "uecho"@,
            Program::Hello => "hello"@,
            Program::Spinner => "spinner"@,
            Program::RogueRead => "rogue_read"@,
            Program::RoguePriv => "rogue_priv"@,
            Program::RoguePtr => "rogue_ptr"@,
        }
    }

    /// Name of the program's task.
    pub fn name(self) -> (r: &'static str)
        ensures
            r@ == self.text(),
    {
        match self {
            Program::Echo => "uecho",
            Program::Hello => "hello",
            Program::Spinner => "spinner",
            Program::RogueRead => "rogue_read",
            Program::RoguePriv => "rogue_priv",
            Program::RoguePtr => "rogue_ptr",
        }
    }

    /// What the program is started with: those that reach for kernel memory
    /// are told an address of it.
    pub fn argument(self, kernel_addr: u64) -> (r: u64)
        ensures
            r == if self is RogueRead || self is RoguePtr {
                kernel_addr
            } else {
                0
            },
    {
        match self {
            Program::RogueRead => kernel_addr,
            Program::RoguePtr => kernel_addr,
            _ => 0,
        }
    }
}

/// The programs of the demonstration, in the order in which they start; none
/// where the first user page is taken (`first_page` says how it is mapped).
pub fn demo(first_page: Option<(bool, bool)>) -> (r: Vec<Program>)
    ensures
        r@ == if first_page is Some {
            Seq::<Program>::empty()
        } else {
            seq![
                Program::Echo,
                Program::Hello,
                Program::Spinner,
                Program::RogueRead,
                Program::RoguePriv,
                Program::RoguePtr,
            ]
        },
{
    let mut programs: Vec<Program> = Vec::new();
    if crate::memory::user::init(first_page) {
        programs.push(Program::Echo);
        programs.push(Program::Hello);
        programs.push(Program::Spinner);
        programs.push(Program::RogueRead);
        programs.push(Program::RoguePriv);
        programs.push(Program::RoguePtr);
    }
    programs
}

/// A check of the userspace demonstration.
#[derive(Debug, Clone, Copy, PartialEq, Eq, Structural)]
pub enum UserCheck {
    RoundTrips,
    Hello,
    Spinner,
    RogueRead,
    RoguePriv,
    RoguePtr,
    ReceiverExits,
}

/// The line of a check: what is checked, and whether it holds.
pub open spec fn report_text(check: UserCheck, ok: bool) -> Seq<u8> {
    "[USER]   ".spec_bytes() + padded(encode_utf8(check.label_text()), 40) + " ".spec_bytes() + mark(ok)
        + "\n".spec_bytes()
}

impl UserCheck {
    pub open spec fn label_text(self) -> Seq<char> {
        match self {
            UserCheck::RoundTrips => "kernel -> user-mode service (3 round trips)"@,
            UserCheck::Hello => "hello finished"@,
            UserCheck::Spinner => "spinner preempted in user mode, finished"@,
            UserCheck::RogueRead => "rogue_read killed, kernel alive"@,
            UserCheck::RoguePriv => "rogue_priv killed, kernel alive"@,
            UserCheck::RoguePtr => "rogue_ptr refused, exited"@,
            UserCheck::ReceiverExits => "user receiver exits -> sender gets Aborted"@,
        }
    }

    /// What is checked, in words.
    pub fn label(self) -> (r: &'static str)
        ensures
            r@ == self.label_text(),
    {
        match self {
            UserCheck::RoundTrips => "kernel -> user-mode service (3 round trips)",
            UserCheck::Hello => "hello finished",
            UserCheck::Spinner => "spinner preempted in user mode, finished",
            UserCheck::RogueRead => "rogue_read killed, kernel alive",
            UserCheck::RoguePriv => "rogue_priv killed, kernel alive",
            UserCheck::RoguePtr => "rogue_ptr refused, exited",
            UserCheck::ReceiverExits => "user receiver exits -> sender gets Aborted",
        }
    }

    /// The line of the check.
    pub fn line(self, ok: bool) -> (r: Vec<u8>)
        ensures
            r@ == report_text(self, ok),
    {
        let mut line: Vec<u8> = Vec::new();
        line.extend_from_slice("[USER]   ".as_bytes());
        write_padded(&mut line, self.label(), 40);
        line.extend_from_slice(" ".as_bytes());
        write_mark(&mut line, ok);
        line.extend_from_slice("\n".as_bytes());
        assert(line@ =~= report_text(self, ok));
        line
    }
}

/// The echo service is right if it answers, itself, with the text that it was
/// sent, in capitals.
pub proof fn law_right_echo(i: u64, svc: u32, status: RqbStatus, reply: Rqb, k: int)
    requires
        echo_right(i, svc, status, reply),
        0 <= k < echo_payload(i).len(),
    ensures
        status == RqbStatus::Success,
        reply.sender_id == svc,
        reply.payload().len() == echo_payload(i).len(),
        ({
            let c = echo_payload(i)[k];
            reply.payload()[k] == if 97 <= c <= 122 {
                c - 32
            } else {
                c as int
            }
        }),
{
}

/// Each request to the echo service has a text of its own.
pub proof fn law_echo_requests_differ(i: u64, j: u64)
    requires
        i != j,
    ensures
        echo_payload(i) != echo_payload(j),
{
    let n = "kernel to user mode #".spec_bytes().len() as int;
    if echo_payload(i) == echo_payload(j) {
        assert(echo_payload(i).skip(n) =~= decimal(i as nat));
        assert(echo_payload(j).skip(n) =~= decimal(j as nat));
        crate::serial::law_decimal_digits(i as nat);
        crate::serial::law_decimal_digits(j as nat);
    }
}

/// The report of a fault names the task, the fault and its place: with an
/// address it is longer by exactly that.
pub proof fn law_fault_report(tid: u32, name: Seq<u8>, what: Seq<u8>, pc: u64, a: u64)
    ensures
        ({
            let head = "[USER] T".spec_bytes() + decimal(tid as nat) + " \"".spec_bytes() + name
                + "\" killed: ".spec_bytes() + what + " at pc=0x".spec_bytes() + hex(pc as nat);
            &&& fault_text(tid, name, what, pc, None) == head + "\n".spec_bytes()
            &&& fault_text(tid, name, what, pc, Some(a)) == head + ", addr=0x".spec_bytes() + hex(a as nat)
                + "\n".spec_bytes()
        }),
{
    let head = "[USER] T".spec_bytes() + decimal(tid as nat) + " \"".spec_bytes() + name
        + "\" killed: ".spec_bytes() + what + " at pc=0x".spec_bytes() + hex(pc as nat);
    assert(fault_text(tid, name, what, pc, None) =~= head + "\n".spec_bytes());
    assert(fault_text(tid, name, what, pc, Some(a)) =~= head + ", addr=0x".spec_bytes() + hex(a as nat)
        + "\n".spec_bytes());
}

/// The system's description begins with its name and ends with the time it is up.
pub proof fn law_info_text(name: Seq<u8>, version: Seq<u8>, cpus: nat, up_ms: nat)
    ensures
        (name + " v".spec_bytes() + version).is_prefix_of(info_text(name, version, cpus, up_ms)),
        (decimal(cpus) + " CPUs, up ".spec_bytes() + decimal(up_ms) + " ms".spec_bytes()).is_suffix_of(
            info_text(name, version, cpus, up_ms),
        ),
{
    let tail = decimal(cpus) + " CPUs, up ".spec_bytes() + decimal(up_ms) + " ms".spec_bytes();
    assert(info_text(name, version, cpus, up_ms) =~= name + " v".spec_bytes() + version
        + ": ".spec_bytes() + tail);
}

} // verus!
