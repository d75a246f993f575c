//! Service names and the text service.
//!
//! The blocking primitives live in the scheduler, because they are task-state
//! transitions; this module adds the service name registry and the services
//! and checks of the boot-time demonstration.

use vstd::prelude::*;
use vstd::string::StringSliceAdditionalSpecFns;
use vstd::utf8::{encode_utf8, encode_utf8_decode_utf8, valid_utf8};
use crate::bytes::same_bytes;
use crate::fs::exfat::dir::{to_upper, upper};
use crate::inline::{text16, text16_new, text16_push_str, text16_str};
use crate::scheduler::rqb::{Rqb, RqbStatus, SVC_TEXT_REVERSE, SVC_TEXT_SHUTDOWN, SVC_TEXT_UPPER};
use crate::scheduler::SCHEDULER_FREQUENCY_HZ;
use crate::line::{blank, BoundedLine, LineSize};
use crate::serial::{
    decimal, mark, padded, sent, write_dec, write_line, write_mark, write_padded,
};
use crate::text::utf8_text;

verus! {

/// Longest service name, in bytes.
pub const SERVICE_NAME_MAX: usize = 16;

/// The services and the tasks that serve them.
pub struct Services {
    entries: Vec<(heapless::String<16>, u32)>,
}

/// A service name and the task that serves it.
#[verifier::ext_equal]
pub struct Service {
    pub name: Seq<char>,
    pub tid: u32,
}

impl View for Services {
    type V = Seq<Service>;

    closed spec fn view(&self) -> Seq<Service> {
        Seq::new(
            self.entries@.len(),
            |i: int| Service { name: text16(self.entries@[i].0), tid: self.entries@[i].1 },
        )
    }
}

/// No name is registered twice.
pub open spec fn names_unique(s: Seq<Service>) -> bool {
    forall|i: int, j: int| 0 <= i < j < s.len() ==> (#[trigger] s[i]).name != (#[trigger] s[j]).name
}

/// The services whose name is not `name`.
pub open spec fn without_name(s: Seq<Service>, name: Seq<char>) -> Seq<Service> {
    s.filter(|e: Service| e.name != name)
}

/// The task that serves `name`, by the entries from the `i`th on.
pub open spec fn served_from(s: Seq<Service>, name: Seq<char>, i: int) -> Option<u32>
    decreases s.len() - i,
{
    if i < 0 || i >= s.len() {
        None
    } else if s[i].name == name {
        Some(s[i].tid)
    } else {
        served_from(s, name, i + 1)
    }
}

/// The task that serves `name`.
pub open spec fn served(s: Seq<Service>, name: Seq<char>) -> Option<u32> {
    served_from(s, name, 0)
}

/// A name that can be registered: not empty, and short enough.
pub open spec fn registrable(name: Seq<char>) -> bool {
    0 < name.len() && encode_utf8(name).len() <= SERVICE_NAME_MAX
}

/// The services after `name` was registered for `tid`.
pub open spec fn registered(s: Seq<Service>, name: Seq<char>, tid: u32) -> Seq<Service> {
    without_name(s, name).push(Service { name, tid })
}

/// Whether two strings are equal.
fn same_text(a: &str, b: &str) -> (r: bool)
    ensures
        r == (a@ == b@),
{
    proof {
        encode_utf8_decode_utf8(a@);
        encode_utf8_decode_utf8(b@);
    }
    same_bytes(a.as_bytes(), b.as_bytes())
}

impl Services {
    /// No service.
    pub fn new() -> (r: Self)
        ensures
            r@ == Seq::<Service>::empty(),
    {
        Services { entries: Vec::new() }
    }

    /// Removes the services named `name`.
    fn remove_name(&mut self, name: &str)
        ensures
            final(self)@ == without_name(old(self)@, name@),
    {
        let ghost all = self@;
        let ghost p = |e: Service| e.name != name@;
        let ghost mut seen: int = 0;
        let mut i: usize = 0;
        assert(all.take(0).filter(p) =~= Seq::<Service>::empty()) by {
            reveal(Seq::filter);
        }
        assert(self@ =~= all.take(0).filter(p) + all.skip(0));
        while i < self.entries.len()
            invariant
                p == (|e: Service| e.name != name@),
                0 <= seen <= all.len(),
                i == all.take(seen).filter(p).len(),
                i <= self.entries@.len(),
                self@ == all.take(seen).filter(p) + all.skip(seen),
            decreases all.len() - seen,
        {
            let ghost before = self@;
            let ghost kept = all.take(seen).filter(p);
            assert(self@[i as int] == all[seen]);
            proof {
                reveal(Seq::filter);
                assert(all.take(seen + 1).drop_last() =~= all.take(seen));
                assert(all.take(seen + 1).last() == all[seen]);
            }
            if same_text(text16_str(&self.entries[i].0), name) {
                let _ = self.entries.remove(i);
                assert(self@ =~= before.remove(i as int));
                assert(self@ =~= kept + all.skip(seen + 1));
            } else {
                i += 1;
                assert(before =~= kept.push(all[seen]) + all.skip(seen + 1));
            }
            proof {
                seen = seen + 1;
            }
        }
        proof {
            assert(seen == all.len());
            assert(all.take(seen) =~= all);
            assert(self@ =~= all.filter(p));
        }
    }
}

/// Registers `tid` under `name`, replacing any previous owner of the name.
/// `false` for a name that is empty or too long.
pub fn register_service(s: &mut Services, name: &str, tid: u32) -> (r: bool)
    ensures
        r == registrable(name@),
        final(s)@ == if r { registered(old(s)@, name@, tid) } else { old(s)@ },
{
    let mut key = text16_new();
    proof {
        assert(encode_utf8(Seq::<char>::empty()).len() == 0);
    }
    if name.is_empty() || !text16_push_str(&mut key, name) {
        return false;
    }
    assert(text16(key) =~= name@);
    s.remove_name(name);
    let ghost before = s@;
    s.entries.push((key, tid));
    assert(s@ =~= before.push(Service { name: name@, tid }));
    true
}

/// Looks up the task serving `name`.
pub fn lookup_service(s: &Services, name: &str) -> (r: Option<u32>)
    ensures
        r == served(s@, name@),
{
    let mut i: usize = 0;
    while i < s.entries.len()
        invariant
            i <= s.entries@.len(),
            served(s@, name@) == served_from(s@, name@, i as int),
        decreases s.entries@.len() - i,
    {
        assert(s@[i as int].name == text16(s.entries@[i as int].0));
        if same_text(text16_str(&s.entries[i].0), name) {
            return Some(s.entries[i].1);
        }
        i += 1;
    }
    None
}

/// The task to talk to, of those that a lookup can give: a registered one
/// that is not zero.
pub fn wait_for_service(found: Option<u32>) -> (r: Option<u32>)
    ensures
        r == if found is Some && found->0 != 0 { found } else { None },
{
    match found {
        Some(tid) if tid != 0 => Some(tid),
        _ => None,
    }
}

/// Looking up a name gives the task that last registered it, other names keep
/// their tasks, and no name is listed twice.
pub proof fn law_register_then_lookup(s: Seq<Service>, name: Seq<char>, tid: u32, other: Seq<char>)
    ensures
        served(registered(s, name, tid), name) == Some(tid),
        other != name ==> served(registered(s, name, tid), other) == served(s, other),
        names_unique(s) ==> names_unique(registered(s, name, tid)),
{
    let rest = without_name(s, name);
    lemma_without(s, name, other);
    lemma_push_serves(rest, Service { name, tid }, name, 0);
    lemma_push_serves(rest, Service { name, tid }, other, 0);
    if names_unique(s) {
        lemma_without_unique(s, name);
    }
}

/// The entries of a shorter list serve the same in a longer one.
proof fn lemma_push_serves(s: Seq<Service>, e: Service, name: Seq<char>, i: int)
    requires
        0 <= i <= s.len(),
    ensures
        served_from(s.push(e), name, i) == if served_from(s, name, i) is Some {
            served_from(s, name, i)
        } else if e.name == name {
            Some(e.tid)
        } else {
            None
        },
    decreases s.len() - i,
{
    if i < s.len() {
        lemma_push_serves(s, e, name, i + 1);
    } else {
        assert(served_from(s.push(e), name, i + 1) is None);
    }
}

/// Removing a name removes what it serves and nothing else.
proof fn lemma_without(s: Seq<Service>, name: Seq<char>, other: Seq<char>)
    ensures
        served(without_name(s, name), name) is None,
        other != name ==> served(without_name(s, name), other) == served(s, other),
        forall|i: int|
            0 <= i < without_name(s, name).len() ==> (#[trigger] without_name(s, name)[i]).name != name,
    decreases s.len(),
{
    reveal(Seq::filter);
    let p = |e: Service| e.name != name;
    if s.len() > 0 {
        let init = s.drop_last();
        lemma_without(init, name, other);
        let f = init.filter(p);
        assert(s =~= init.push(s.last()));
        lemma_push_serves(init, s.last(), other, 0);
        if p(s.last()) {
            assert(s.filter(p) =~= f.push(s.last()));
            lemma_push_serves(f, s.last(), other, 0);
            lemma_push_serves(f, s.last(), name, 0);
        } else {
            assert(s.filter(p) =~= f);
        }
    }
}

/// What is left after a removal was there before, in order.
proof fn lemma_without_unique(s: Seq<Service>, name: Seq<char>)
    requires
        names_unique(s),
    ensures
        names_unique(without_name(s, name)),
        forall|i: int|
            0 <= i < without_name(s, name).len() ==> (exists|j: int|
                0 <= j < s.len() && (#[trigger] s[j]).name == (
                #[trigger] without_name(s, name)[i]).name),
    decreases s.len(),
{
    reveal(Seq::filter);
    let p = |e: Service| e.name != name;
    if s.len() > 0 {
        let init = s.drop_last();
        assert forall|i: int, j: int| 0 <= i < j < init.len() implies (#[trigger] init[i]).name != (
        #[trigger] init[j]).name by {
            assert(s[i].name != s[j].name);
        }
        lemma_without_unique(init, name);
        let f = init.filter(p);
        let w = s.filter(p);
        assert forall|i: int| 0 <= i < w.len() implies (exists|j: int|
            0 <= j < s.len() && (#[trigger] s[j]).name == (#[trigger] w[i]).name) by {
            if p(s.last()) && i == f.len() {
                assert(s[s.len() - 1].name == w[i].name);
            } else {
                assert(w[i] == f[i]);
                assert(without_name(init, name)[i].name == f[i].name);
                let j = choose|j: int| 0 <= j < init.len() && (#[trigger] init[j]).name == f[i].name;
                assert(s[j].name == w[i].name);
            }
        }
        assert forall|i: int, j: int| 0 <= i < j < w.len() implies (#[trigger] w[i]).name != (
        #[trigger] w[j]).name by {
            if p(s.last()) && j == f.len() {
                assert(w[i] == f[i]);
                assert(without_name(init, name)[i].name == f[i].name);
                let k = choose|k: int| 0 <= k < init.len() && (#[trigger] init[k]).name == f[i].name;
                assert(s[k].name != s[s.len() - 1].name);
            } else {
                assert(without_name(init, name)[i].name != without_name(init, name)[j].name);
            }
        }
    }
}

/// What the text service does with a request.
pub enum ServiceAction {
    /// Answer the sender.
    Reply(Rqb),
    /// Exit without replying.
    Shutdown,
}

/// Bytes with their ASCII letters in upper case.
pub open spec fn uppercased(s: Seq<u8>) -> Seq<u8> {
    s.map_values(|b: u8| upper(b))
}

/// The bytes that the text service answers a payload with, if it knows the
/// service code.
pub open spec fn text_answer(service: u16, payload: Seq<u8>) -> Option<Seq<u8>> {
    if service == SVC_TEXT_UPPER {
        Some(uppercased(payload))
    } else if service == SVC_TEXT_REVERSE {
        Some(payload.reverse())
    } else {
        None
    }
}

/// Bytes with their ASCII letters in upper case.
pub fn uppercase(d: &[u8]) -> (r: Vec<u8>)
    ensures
        r@ == uppercased(d@),
{
    let mut out: Vec<u8> = Vec::new();
    let mut i: usize = 0;
    while i < d.len()
        invariant
            i <= d@.len(),
            out@ =~= uppercased(d@.take(i as int)),
        decreases d@.len() - i,
    {
        out.push(to_upper(d[i]));
        i += 1;
    }
    assert(d@.take(i as int) =~= d@);
    out
}

/// Bytes in reverse order.
pub fn reversed(d: &[u8]) -> (r: Vec<u8>)
    ensures
        r@ == d@.reverse(),
{
    let mut out: Vec<u8> = Vec::new();
    let n: usize = d.len();
    let mut i: usize = 0;
    while i < n
        invariant
            i <= n,
            n == d@.len(),
            out@ =~= d@.reverse().take(i as int),
        decreases n - i,
    {
        out.push(d[n - 1 - i]);
        i += 1;
    }
    assert(d@.reverse().take(n as int) =~= d@.reverse());
    out
}

/// `a` is the text service's reply to a request.
pub open spec fn text_reply(req: Rqb, a: Rqb) -> bool {
    match text_answer(req.service, req.payload()) {
        Some(d) => a.composed(req.service, RqbStatus::Success, d),
        None => a.composed(req.service, RqbStatus::InvalidService, Seq::empty()),
    }
}

/// Text service: upper-cases or reverses payloads, and shuts down when told
/// to, without answering.
pub fn text_service_task(req: &Rqb) -> (r: ServiceAction)
    ensures
        (r is Shutdown) == (req.service == SVC_TEXT_SHUTDOWN),
        r is Reply ==> text_reply(*req, r->Reply_0),
{
    if req.service == SVC_TEXT_SHUTDOWN {
        return ServiceAction::Shutdown;
    }
    let mut resp = Rqb::with_service(req.service);
    if req.service == SVC_TEXT_UPPER {
        let d = uppercase(req.get_data());
        resp.set_data(d.as_slice());
        assert(d@.subrange(0, d@.len() as int) =~= d@);
        resp.set_status(RqbStatus::Success);
    } else if req.service == SVC_TEXT_REVERSE {
        let d = reversed(req.get_data());
        resp.set_data(d.as_slice());
        assert(d@.subrange(0, d@.len() as int) =~= d@);
        resp.set_status(RqbStatus::Success);
    } else {
        resp.set_status(RqbStatus::InvalidService);
    }
    assert(text_reply(*req, resp));
    ServiceAction::Reply(resp)
}

/// The payload of a client's `i`th request: "t", its task ID, " msg ", the
/// number.
pub open spec fn client_payload(me: u32, i: u32) -> Seq<u8> {
    seq![0x74u8] + decimal(me as nat) + " msg ".spec_bytes() + decimal(i as nat)
}

/// The service code of a client's `i`th request: it alternates.
pub open spec fn client_service(i: u32) -> u16 {
    if i % 2 == 0 {
        SVC_TEXT_UPPER
    } else {
        SVC_TEXT_REVERSE
    }
}

fn make_payload(me: u32, i: u32) -> (r: Vec<u8>)
    ensures
        r@ == client_payload(me, i),
{
    let mut out: Vec<u8> = Vec::new();
    out.push(0x74);
    write_dec(&mut out, me as u64);
    out.extend_from_slice(" msg ".as_bytes());
    write_dec(&mut out, i as u64);
    assert(out@ =~= client_payload(me, i));
    out
}

/// The decimal digits of a number below ten to the `k` are at most `k`.
proof fn lemma_digits(n: nat, k: nat)
    requires
        k >= 1,
        n < vstd::arithmetic::power::pow(10, k),
    ensures
        decimal(n).len() <= k,
    decreases k,
{
    vstd::arithmetic::power::lemma_pow1(10);
    if n >= 10 {
        assert(k > 1);
        vstd::arithmetic::power::lemma_pow_adds(10, (k - 1) as nat, 1);
        lemma_digits(n / 10, (k - 1) as nat);
    }
}

/// The `i`th request that a client sends to the text service.
pub fn client_request(me: u32, i: u32) -> (r: Rqb)
    ensures
        r.composed(client_service(i), RqbStatus::Success, client_payload(me, i)),
{
    let mut rqb = Rqb::with_service(if i % 2 == 0 { SVC_TEXT_UPPER } else { SVC_TEXT_REVERSE });
    let payload = make_payload(me, i);
    proof {
        assert(vstd::arithmetic::power::pow(10, 10) == 10_000_000_000) by {
            reveal(vstd::arithmetic::power::pow);
            reveal_with_fuel(vstd::arithmetic::power::pow, 11);
        }
        lemma_digits(me as nat, 10);
        lemma_digits(i as nat, 10);
        reveal_strlit(" msg ");
        vstd::string::is_ascii_spec_bytes(" msg ");
    }
    rqb.set_data(payload.as_slice());
    assert(payload@.subrange(0, payload@.len() as int) =~= payload@);
    assert(rqb.composed(client_service(i), RqbStatus::Success, client_payload(me, i)));
    rqb
}

/// Whether the reply to a client's `i`th request is right: successful, from
/// the service, and with the payload upper-cased or reversed.
pub fn client_accepts(me: u32, i: u32, svc: u32, status: RqbStatus, reply: &Rqb) -> (r: bool)
    ensures
        r == (status == RqbStatus::Success && reply.sender_id == svc && Some(reply.payload())
            == text_answer(client_service(i), client_payload(me, i))),
{
    let payload = make_payload(me, i);
    let expect = if i % 2 == 0 {
        uppercase(payload.as_slice())
    } else {
        reversed(payload.as_slice())
    };
    status == RqbStatus::Success && reply.sender_id == svc && same_bytes(
        reply.get_data(),
        expect.as_slice(),
    )
}

/// The checks of the message passing, in order.
#[derive(Debug, Clone, Copy, PartialEq, Eq, Structural)]
pub enum IpcCheck {
    SendToSelf,
    SendToUnknown,
    UnknownService,
    ReplyToNonWaiting,
    ReceiverExits,
    SendToExited,
}

impl IpcCheck {
    /// The status that the check is to give.
    pub open spec fn expected(self) -> RqbStatus {
        match self {
            IpcCheck::SendToSelf => RqbStatus::InvalidParam,
            IpcCheck::SendToUnknown => RqbStatus::NotFound,
            IpcCheck::UnknownService => RqbStatus::InvalidService,
            IpcCheck::ReplyToNonWaiting => RqbStatus::InvalidParam,
            IpcCheck::ReceiverExits => RqbStatus::Aborted,
            IpcCheck::SendToExited => RqbStatus::NotFound,
        }
    }

    /// Whether a check gave the status it is to.
    pub fn passed(self, got: RqbStatus) -> (r: bool)
        ensures
            r == (got == self.expected()),
    {
        let want = match self {
            IpcCheck::SendToSelf => RqbStatus::InvalidParam,
            IpcCheck::SendToUnknown => RqbStatus::NotFound,
            IpcCheck::UnknownService => RqbStatus::InvalidService,
            IpcCheck::ReplyToNonWaiting => RqbStatus::InvalidParam,
            IpcCheck::ReceiverExits => RqbStatus::Aborted,
            IpcCheck::SendToExited => RqbStatus::NotFound,
        };
        got == want
    }
}

/// Milliseconds between two jiffies, and whether a sleep of 250 ms may have
/// taken that long.
pub fn sleep_check(t0: u64, t1: u64) -> (r: (u64, bool))
    requires
        t0 <= t1,
        (t1 - t0) * 1000 <= u64::MAX,
    ensures
        r.0 == (t1 - t0) * 1000 / (SCHEDULER_FREQUENCY_HZ as int),
        r.1 == (250 <= r.0 <= 400),
{
    let slept_ms: u64 = (t1 - t0) * 1000 / SCHEDULER_FREQUENCY_HZ as u64;
    (slept_ms, 250 <= slept_ms && slept_ms <= 400)
}

/// Tells that the message passing is ready.
pub fn init(out: &mut Vec<u8>)
    ensures
        final(out)@ == old(out)@ + sent(
            "[IPC] RQB IPC ready: blocking send/receive/reply, service registry".spec_bytes(),
        ) + seq![10u8],
{
    write_line(out, "[IPC] RQB IPC ready: blocking send/receive/reply, service registry");
}

/// How many clients the demonstration has.
pub const CLIENTS: usize = 3;

/// How many requests each client sends.
pub const REQUESTS_PER_CLIENT: u32 = 5;

/// A task of the demonstration.
#[derive(Debug, Clone, Copy, PartialEq, Eq, Structural)]
pub enum DemoTask {
    TextService,
    Client,
    Checker,
}

impl DemoTask {
    pub open spec fn text(self) -> Seq<char> {
        match self {
            DemoTask::TextService => "textsvc"@,
            DemoTask::Client => "client"@,
            DemoTask::Checker => "ipccheck"@,
        }
    }

    /// Name of the task.
    pub fn name(self) -> (r: &'static str)
        ensures
            r@ == self.text(),
    {
        match self {
            DemoTask::TextService => "textsvc",
            DemoTask::Client => "client",
            DemoTask::Checker => "ipccheck",
        }
    }
}

/// The tasks of the demonstration, in the order in which they are created:
/// the service, the clients, the checks.
pub fn demo() -> (r: Vec<DemoTask>)
    ensures
        r@ == seq![DemoTask::TextService] + Seq::new(CLIENTS as nat, |i: int| DemoTask::Client)
            + seq![DemoTask::Checker],
{
    let mut tasks: Vec<DemoTask> = Vec::new();
    tasks.push(DemoTask::TextService);
    let mut i: usize = 0;
    while i < CLIENTS
        invariant
            i <= CLIENTS,
            tasks@ =~= seq![DemoTask::TextService] + Seq::new(i as nat, |k: int| DemoTask::Client),
        decreases CLIENTS - i,
    {
        tasks.push(DemoTask::Client);
        i += 1;
    }
    tasks.push(DemoTask::Checker);
    tasks
}

/// A client at work: it sends its requests one after the other and holds
/// every reply against what it asked for.
#[derive(Debug, Clone, Copy, PartialEq, Eq, Structural)]
pub struct TextClient {
    /// The client's task.
    pub me: u32,
    /// The service's task.
    pub svc: u32,
    /// How many requests were answered.
    pub done: u32,
    /// How many of the answers were right.
    pub ok: u32,
}

/// The reply to a client's `i`th request is right.
pub open spec fn reply_right(me: u32, svc: u32, i: u32, status: RqbStatus, reply: Rqb) -> bool {
    status == RqbStatus::Success && reply.sender_id == svc && Some(reply.payload()) == text_answer(
        client_service(i),
        client_payload(me, i),
    )
}

impl TextClient {
    pub open spec fn wf(self) -> bool {
        self.ok <= self.done <= REQUESTS_PER_CLIENT
    }

    /// A client that has sent nothing.
    pub fn new(me: u32, svc: u32) -> (r: Self)
        ensures
            r.wf(),
            r == (TextClient { me, svc, done: 0, ok: 0 }),
    {
        TextClient { me, svc, done: 0, ok: 0 }
    }

    /// The request that is sent next; `None` once all are answered.
    pub fn next_request(&self) -> (r: Option<Rqb>)
        ensures
            match r {
                None => self.done >= REQUESTS_PER_CLIENT,
                Some(q) => {
                    &&& self.done < REQUESTS_PER_CLIENT
                    &&& q.composed(
                        client_service(self.done),
                        RqbStatus::Success,
                        client_payload(self.me, self.done),
                    )
                },
            },
    {
        if self.done < REQUESTS_PER_CLIENT {
            Some(client_request(self.me, self.done))
        } else {
            None
        }
    }

    /// Takes the reply to the request.
    pub fn replied(&mut self, status: RqbStatus, reply: &Rqb) -> (right: bool)
        requires
            old(self).wf(),
            old(self).done < REQUESTS_PER_CLIENT,
        ensures
            final(self).wf(),
            right == reply_right(old(self).me, old(self).svc, old(self).done, status, *reply),
            *final(self) == (TextClient {
                done: (old(self).done + 1) as u32,
                ok: (old(self).ok + if right {
                    1int
                } else {
                    0int
                }) as u32,
                ..*old(self)
            }),
    {
        let right = client_accepts(self.me, self.done, self.svc, status, reply);
        self.done = self.done + 1;
        if right {
            self.ok = self.ok + 1;
        }
        right
    }

    /// Whether all requests were answered rightly.
    pub fn passed(&self) -> (r: bool)
        ensures
            r == (self.ok == REQUESTS_PER_CLIENT),
    {
        self.ok == REQUESTS_PER_CLIENT
    }
}

/// What the text service answers to a client's request is what the client
/// expects, whichever client and request it is, once it is delivered under
/// the service's name.
pub proof fn law_text_service_satisfies_clients(
    me: u32,
    svc: u32,
    i: u32,
    req: Rqb,
    a: Rqb,
    delivered: Rqb,
)
    requires
        req.service == client_service(i),
        req.payload() == client_payload(me, i),
        text_reply(req, a),
        delivered.payload() == a.payload(),
        delivered.sender_id == svc,
    ensures
        a.status == RqbStatus::Success.spec_code(),
        reply_right(me, svc, i, RqbStatus::Success, delivered),
{
}

/// What a check does: it sends a request to a task, or replies to one.
pub enum CheckAction {
    Send { to: u32, rqb: Rqb },
    Reply { to: u32 },
}

impl IpcCheck {
    /// The service code that the check asks for, where it sends.
    pub open spec fn service(self) -> u16 {
        match self {
            IpcCheck::UnknownService => 0x7777,
            IpcCheck::ReceiverExits => SVC_TEXT_SHUTDOWN,
            _ => SVC_TEXT_UPPER,
        }
    }

    /// What the check does: `me` is the task that checks, `svc` that of the
    /// text service.
    pub fn action(self, me: u32, svc: u32) -> (r: CheckAction)
        ensures
            match r {
                CheckAction::Reply { to } => self is ReplyToNonWaiting && to == svc,
                CheckAction::Send { to, rqb } => {
                    &&& !(self is ReplyToNonWaiting)
                    &&& to == match self {
                        IpcCheck::SendToSelf => me,
                        IpcCheck::SendToUnknown => 0xDEAD,
                        _ => svc,
                    }
                    &&& rqb.service == self.service()
                    &&& (Rqb { service: 0, ..rqb }).is_blank()
                },
            },
    {
        match self {
            IpcCheck::SendToSelf => CheckAction::Send {
                to: me,
                rqb: Rqb::with_service(SVC_TEXT_UPPER),
            },
            IpcCheck::SendToUnknown => CheckAction::Send {
                to: 0xDEAD,
                rqb: Rqb::with_service(SVC_TEXT_UPPER),
            },
            IpcCheck::UnknownService => CheckAction::Send {
                to: svc,
                rqb: Rqb::with_service(0x7777),
            },
            IpcCheck::ReplyToNonWaiting => CheckAction::Reply { to: svc },
            IpcCheck::ReceiverExits => CheckAction::Send {
                to: svc,
                rqb: Rqb::with_service(SVC_TEXT_SHUTDOWN),
            },
            IpcCheck::SendToExited => CheckAction::Send {
                to: svc,
                rqb: Rqb::with_service(SVC_TEXT_UPPER),
            },
        }
    }
}

/// The checks before the sleep is measured, and those after.
pub fn ipc_check_task() -> (r: (Vec<IpcCheck>, Vec<IpcCheck>))
    ensures
        r.0@ == seq![
            IpcCheck::SendToSelf,
            IpcCheck::SendToUnknown,
            IpcCheck::UnknownService,
            IpcCheck::ReplyToNonWaiting,
        ],
        r.1@ == seq![IpcCheck::ReceiverExits, IpcCheck::SendToExited],
{
    let mut before: Vec<IpcCheck> = Vec::new();
    before.push(IpcCheck::SendToSelf);
    before.push(IpcCheck::SendToUnknown);
    before.push(IpcCheck::UnknownService);
    before.push(IpcCheck::ReplyToNonWaiting);
    let mut after: Vec<IpcCheck> = Vec::new();
    after.push(IpcCheck::ReceiverExits);
    after.push(IpcCheck::SendToExited);
    (before, after)
}

/// The line of a check: what it does, the status that it got, and whether
/// that is the one it is to get.
pub open spec fn check_text(check: IpcCheck, got: RqbStatus) -> Seq<u8> {
    "[IPC]   ".spec_bytes() + padded(encode_utf8(check.label_text()), 34) + " -> ".spec_bytes()
        + encode_utf8(got.text()) + " ".spec_bytes() + mark(got == check.expected())
        + "\n".spec_bytes()
}

impl IpcCheck {
    pub open spec fn label_text(self) -> Seq<char> {
        match self {
            IpcCheck::SendToSelf => "send to self"@,
            IpcCheck::SendToUnknown => "send to unknown task"@,
            IpcCheck::UnknownService => "unknown service code"@,
            IpcCheck::ReplyToNonWaiting => "reply to a non-waiting task"@,
            IpcCheck::ReceiverExits => "receiver exits before replying"@,
            IpcCheck::SendToExited => "send to exited task"@,
        }
    }

    /// What the check does, in words.
    pub fn label(self) -> (r: &'static str)
        ensures
            r@ == self.label_text(),
    {
        match self {
            IpcCheck::SendToSelf => "send to self",
            IpcCheck::SendToUnknown => "send to unknown task",
            IpcCheck::UnknownService => "unknown service code",
            IpcCheck::ReplyToNonWaiting => "reply to a non-waiting task",
            IpcCheck::ReceiverExits => "receiver exits before replying",
            IpcCheck::SendToExited => "send to exited task",
        }
    }

    /// The line of the check, with the status that it got.
    pub fn line(self, got: RqbStatus) -> (r: Vec<u8>)
        ensures
            r@ == check_text(self, got),
    {
        let good = self.passed(got);
        let mut line: Vec<u8> = Vec::new();
        line.extend_from_slice("[IPC]   ".as_bytes());
        write_padded(&mut line, self.label(), 34);
        line.extend_from_slice(" -> ".as_bytes());
        line.extend_from_slice(got.name().as_bytes());
        line.extend_from_slice(" ".as_bytes());
        write_mark(&mut line, good);
        line.extend_from_slice("\n".as_bytes());
        assert(line@ =~= check_text(self, got));
        line
    }
}

/// The line of the measured sleep.
pub open spec fn sleep_text(slept_ms: u64, good: bool) -> Seq<u8> {
    "[IPC]   ".spec_bytes() + padded("sleep_ms(250)".spec_bytes(), 34) + " -> ".spec_bytes() + decimal(
        slept_ms as nat,
    ) + " ms ".spec_bytes() + mark(good) + "\n".spec_bytes()
}

/// The line of the measured sleep.
pub fn sleep_line(slept_ms: u64, good: bool) -> (r: Vec<u8>)
    ensures
        r@ == sleep_text(slept_ms, good),
{
    let mut line: Vec<u8> = Vec::new();
    line.extend_from_slice("[IPC]   ".as_bytes());
    write_padded(&mut line, "sleep_ms(250)", 34);
    line.extend_from_slice(" -> ".as_bytes());
    write_dec(&mut line, slept_ms);
    line.extend_from_slice(" ms ".as_bytes());
    write_mark(&mut line, good);
    line.extend_from_slice("\n".as_bytes());
    assert(line@ =~= sleep_text(slept_ms, good));
    line
}

/// The line of the text service when it shuts down.
pub open spec fn shutdown_text(served: u64) -> Seq<u8> {
    "[IPC] textsvc: served ".spec_bytes() + decimal(served as nat)
        + " requests, shutting down\n".spec_bytes()
}

/// The line of the text service when it shuts down.
pub fn shutdown_line(served: u64) -> (r: Vec<u8>)
    ensures
        r@ == shutdown_text(served),
{
    let mut line: Vec<u8> = Vec::new();
    line.extend_from_slice("[IPC] textsvc: served ".as_bytes());
    write_dec(&mut line, served);
    line.extend_from_slice(" requests, shutting down\n".as_bytes());
    assert(line@ =~= shutdown_text(served));
    line
}

/// The payload of a reply as text, a question mark where it is none.
pub fn reply_text(reply: &Rqb) -> (r: &str)
    ensures
        valid_utf8(reply.payload()) ==> r.spec_bytes() == reply.payload(),
        !valid_utf8(reply.payload()) ==> r@ == "?"@,
{
    match utf8_text(reply.get_data()) {
        Some(s) => s,
        None => "?",
    }
}

/// The line of a client on CPU `cpu` that has ended, with the last right reply
/// that it got, as it fits 128 bytes.
pub open spec fn client_line(c: TextClient, cpu: u64, last: Seq<u8>) -> Seq<u8> {
    blank(128).put("[IPC] client T".spec_bytes()).put(decimal(c.me as nat)).put(
        " (CPU".spec_bytes(),
    ).put(decimal(cpu as nat)).put("): ".spec_bytes()).put(decimal(c.ok as nat)).put(
        "/".spec_bytes(),
    ).put(decimal(REQUESTS_PER_CLIENT as nat)).put(
        " round trips verified, last reply \"".spec_bytes(),
    ).put(last).put("\"\n".spec_bytes()).bytes
}

impl TextClient {
    /// The line of a client that has ended, with the last right reply that it
    /// got.
    pub fn report(&self, cpu: u64, last: &str) -> (r: Vec<u8>)
        ensures
            r@ == client_line(*self, cpu, last.spec_bytes()),
    {
        let mut line = BoundedLine::new(LineSize::Bytes128);
        line.text("[IPC] client T");
        line.dec(self.me as u64);
        line.text(" (CPU");
        line.dec(cpu);
        line.text("): ");
        line.dec(self.ok as u64);
        line.text("/");
        line.dec(REQUESTS_PER_CLIENT as u64);
        line.text(" round trips verified, last reply \"");
        line.text(last);
        line.text("\"\n");
        line.into_bytes()
    }
}

/// Capitals are made of the small ASCII letters, and of nothing else.
pub proof fn law_capitals(s: Seq<u8>, i: int)
    requires
        0 <= i < s.len(),
    ensures
        uppercased(s).len() == s.len(),
        97 <= s[i] <= 122 ==> uppercased(s)[i] == s[i] - 32,
        !(97 <= s[i] <= 122) ==> uppercased(s)[i] == s[i],
{
}

/// What the text service does: service 0x300 gives the text in capitals, and
/// 0x301 gives it backwards; it does nothing else.
pub proof fn law_text_service(service: u16, payload: Seq<u8>, i: int)
    requires
        0 <= i < payload.len(),
    ensures
        text_answer(0x300, payload) == Some(uppercased(payload)),
        text_answer(0x301, payload) is Some,
        text_answer(0x301, payload)->0.len() == payload.len(),
        text_answer(0x301, payload)->0[i] == payload[payload.len() - 1 - i],
        service != 0x300 && service != 0x301 ==> text_answer(service, payload) is None,
        SVC_TEXT_SHUTDOWN == 0x3FF,
{
}

/// An answer of the text service carries the service that was asked for; one
/// that it does not have is answered as such, with no text.
pub proof fn law_text_answers(req: Rqb, a: Rqb)
    requires
        text_reply(req, a),
    ensures
        a.service == req.service,
        req.service == 0x300 || req.service == 0x301 ==> a.status == 0 && a.data_size
            == req.payload().len(),
        req.service != 0x300 && req.service != 0x301 ==> a.status == 2 && a.data_size == 0,
{
}

/// A client asks by turns for capitals and for the text backwards, and each
/// time with another text.
pub proof fn law_client_requests(me: u32, i: u32, j: u32)
    requires
        i != j,
    ensures
        client_service(i) == if i % 2 == 0 {
            0x300u16
        } else {
            0x301u16
        },
        client_payload(me, i) != client_payload(me, j),
{
    let head = seq![0x74u8] + decimal(me as nat) + " msg ".spec_bytes();
    if client_payload(me, i) == client_payload(me, j) {
        let n = head.len() as int;
        assert(client_payload(me, i).skip(n) =~= decimal(i as nat));
        assert(client_payload(me, j).skip(n) =~= decimal(j as nat));
        crate::serial::law_decimal_digits(i as nat);
        crate::serial::law_decimal_digits(j as nat);
    }
}

/// The name of a service has one to sixteen bytes.
pub proof fn law_service_names(name: Seq<char>)
    ensures
        registrable(name) <==> name.len() > 0 && encode_utf8(name).len() <= 16,
{
}

/// A lookup gives the first task that is listed under the name.
pub proof fn law_lookup(s: Seq<Service>, name: Seq<char>, i: int)
    requires
        0 <= i,
    ensures
        match served_from(s, name, i) {
            Some(tid) => exists|k: int|
                i <= k < s.len() && (#[trigger] s[k]).name == name && s[k].tid == tid && forall|j: int|
                    i <= j < k ==> (#[trigger] s[j]).name != name,
            None => forall|k: int| i <= k < s.len() ==> (#[trigger] s[k]).name != name,
        },
        served(s, name) == served_from(s, name, 0),
    decreases s.len() - i,
{
    if i < s.len() {
        if s[i].name != name {
            law_lookup(s, name, i + 1);
        } else {
            assert(s[i].name == name);
        }
    }
}

/// The checks expect what the kernel does: a send to oneself, or to a task
/// that does not live, is refused as expected; so is a reply to a task that
/// does not wait; a service that nobody has is answered as expected; and a
/// request to a task that exits is.
pub proof fn law_checks_expect_what_happens(
    s: crate::scheduler::model::SchedModel,
    cpu: usize,
    svc: u32,
    req: Rqb,
    a: Rqb,
    lost: Rqb,
)
    ensures
        s.request_refused(cpu, s.current_id(cpu)) == Some(IpcCheck::SendToSelf.expected()),
        s.current_id(cpu) != 0xDEAD && s.find_live(0xDEAD) is None ==> s.request_refused(cpu, 0xDEAD)
            == Some(IpcCheck::SendToUnknown.expected()),
        s.current_id(cpu) != svc && s.find_live(svc) is None ==> s.request_refused(cpu, svc) == Some(
            IpcCheck::SendToExited.expected(),
        ),
        s.find_live(svc) is Some && !s.tasks[s.find_live(svc)->0].awaits(s.current_id(cpu))
            ==> s.reply_refused(cpu, svc) == Some(IpcCheck::ReplyToNonWaiting.expected()),
        req.service == IpcCheck::UnknownService.service() && text_reply(req, a)
            ==> crate::scheduler::rqb::status_of_code(a.status) == IpcCheck::UnknownService.expected(),
        crate::scheduler::model::is_aborted_reply(lost, svc, s.current_id(cpu))
            ==> crate::scheduler::rqb::status_of_code(lost.status) == IpcCheck::ReceiverExits.expected(),
        IpcCheck::ReceiverExits.service() == 0x3FF,
        IpcCheck::UnknownService.service() != 0x300 && IpcCheck::UnknownService.service() != 0x301
            && IpcCheck::UnknownService.service() != 0x3FF,
{
}

/// A client's text begins with a small t and the client's number and ends with the number of the
/// request.
pub proof fn law_client_text(me: u32, i: u32)
    ensures
        client_payload(me, i)[0] == 116,
        decimal(me as nat).is_prefix_of(client_payload(me, i).skip(1)),
        decimal(i as nat).is_suffix_of(client_payload(me, i)),
        client_payload(me, i).len() == 1 + decimal(me as nat).len() + " msg ".spec_bytes().len()
            + decimal(i as nat).len(),
{
    let tail = decimal(me as nat) + " msg ".spec_bytes() + decimal(i as nat);
    assert(client_payload(me, i).skip(1) =~= tail);
}

/// The check for an unknown service asks for one that the text service does not answer; the one for a
/// service that exits asks it to shut down, and every other asks for capitals.
pub proof fn law_checks_ask(check: IpcCheck, payload: Seq<u8>)
    ensures
        IpcCheck::UnknownService.service() == 0x7777,
        text_answer(IpcCheck::UnknownService.service(), payload) is None,
        IpcCheck::ReceiverExits.service() == SVC_TEXT_SHUTDOWN,
        check != IpcCheck::UnknownService && check != IpcCheck::ReceiverExits ==> check.service()
            == SVC_TEXT_UPPER,
{
}

} // verus!
