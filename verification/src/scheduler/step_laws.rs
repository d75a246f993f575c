//! What the single operations of the scheduler do.

use vstd::prelude::*;
use super::laws::law_picked_task_is_runnable;
use super::model::{is_aborted_reply, SchedModel, MAX_CPUS};
use super::rqb::{status_of_code, Rqb, RqbStatus};
use super::task::{fresh_task, stack_holds_context, TaskModel, TaskState};
use super::pit_ops;
use crate::io::IoOp;

verus! {

/// A tick of the timer advances the clock by one, on the first CPU and no
/// other; without the timer it stands.
pub proof fn law_first_cpu_drives_the_clock(s: SchedModel, cpu: usize, sp: u64, timer: bool)
    requires
        s.inv(),
        s.running(cpu),
    ensures
        ({
            let post = s.after_tick(cpu, sp, timer);
            &&& post.jiffies == s.jiffies + (if timer && cpu == 0 {
                1int
            } else {
                0
            })
            &&& post.tick_count == s.tick_count + (if timer {
                1int
            } else {
                0
            })
        }),
{
}

/// A CPU that is not registered does not take part.
pub proof fn law_unregistered_cpu_changes_nothing(s: SchedModel, cpu: usize, sp: u64, timer: bool)
    requires
        !s.cpus[cpu as int].registered,
    ensures
        s.after_tick(cpu, sp, timer) == s,
{
}

/// What a tick does: the task that ran has its context saved, and is Ready
/// where it was Running; another, or the same, runs in its place on this CPU.
/// Sleepers whose time has come are Ready. No other task and no other CPU
/// changes.
pub proof fn law_tick_switches_tasks(s: SchedModel, cpu: usize, sp: u64, timer: bool, i: int)
    requires
        s.inv(),
        s.running(cpu),
        timer ==> s.tick_count < u64::MAX,
        0 <= i < s.tasks.len(),
    ensures
        ({
            let post = s.after_tick(cpu, sp, timer);
            let me = s.current(cpu);
            let next = post.current(cpu);
            let t = s.tasks[i];
            let u = post.tasks[i];
            let now = post.jiffies;
            let due = t.state == TaskState::Sleeping && t.wake_tick <= now;
            &&& 0 <= next < s.tasks.len()
            &&& post.tasks.len() == s.tasks.len()
            &&& i == next ==> u.state == TaskState::Running && u.on_cpu == Some(cpu as u8)
            &&& i == me ==> u.context_ptr == sp && u.total_ticks == t.total_ticks + (if timer {
                1int
            } else {
                0
            })
            &&& i == me && i != next ==> u.on_cpu is None && u.state == (if t.state == TaskState::Running
                || due {
                TaskState::Ready
            } else {
                t.state
            })
            &&& i != me ==> u.context_ptr == t.context_ptr && u.total_ticks == t.total_ticks
            &&& i != me && i != next ==> u.on_cpu == t.on_cpu && u.state == (if due {
                TaskState::Ready
            } else {
                t.state
            })
            &&& u.id == t.id && u.priority == t.priority && u.name == t.name && u.inbox == t.inbox
            &&& u.reply == t.reply && u.wait_for == t.wait_for && u.wake_tick == t.wake_tick
            &&& u.pinned_cpu == t.pinned_cpu && u.user == t.user
            &&& u.kernel_stack_top == t.kernel_stack_top
            &&& forall|c: int| 0 <= c < MAX_CPUS && c != cpu ==> #[trigger] post.cpus[c] == s.cpus[c]
            &&& post.next_id == s.next_id
        }),
{
    assert(s.cpu_inv(cpu as int));
    assert(s.tasks[i].inv());
    law_picked_task_is_runnable(s.before_pick(cpu, sp, timer), cpu, 1);
    assert(s.tasks[s.current(cpu)].total_ticks <= s.tick_count);
}

/// What runs next goes on where it was interrupted: with the context that was
/// saved for it, which is the one just saved where the task runs on.
pub proof fn law_tick_goes_on_where_it_stopped(s: SchedModel, cpu: usize, sp: u64, timer: bool)
    requires
        s.inv(),
        s.running(cpu),
    ensures
        ({
            let b = s.before_pick(cpu, sp, timer);
            let next = s.after_tick(cpu, sp, timer).current(cpu);
            &&& b.next_for(cpu) == next
            &&& b.tasks[b.next_for(cpu)].context_ptr == if next == s.current(cpu) {
                sp
            } else {
                s.tasks[next].context_ptr
            }
        }),
{
    assert(s.cpu_inv(cpu as int));
    law_picked_task_is_runnable(s.before_pick(cpu, sp, timer), cpu, 1);
}

/// A CPU idles only where no task can run on it: the task that is picked is
/// Ready, on no CPU, no idle task and not pinned elsewhere, and where there is
/// none it is the idle task of the CPU.
pub proof fn law_cpu_idles_only_without_work(s: SchedModel, cpu: usize, i: int)
    requires
        s.tasks.len() > 0,
        0 <= s.rr_cursor < s.tasks.len(),
        0 <= i < s.tasks.len(),
    ensures
        s.in_turn(cpu) is None ==> s.next_for(cpu) == s.cpus[cpu as int].idle_idx,
        s.in_turn(cpu) is None ==> {
            let t = s.tasks[i];
            t.state != TaskState::Ready || t.on_cpu is Some || t.priority == 31 || (t.pinned_cpu is Some
                && t.pinned_cpu->0 as int != cpu as int)
        },
        s.in_turn(cpu) is Some ==> {
            let n = s.next_for(cpu);
            let t = s.tasks[n];
            &&& 0 <= n < s.tasks.len()
            &&& t.state == TaskState::Ready
            &&& t.on_cpu is None
            &&& t.priority != 31
            &&& t.pinned_cpu is Some ==> t.pinned_cpu->0 as int == cpu as int
            &&& s.picked(cpu).rr_cursor == n
        },
{
    law_picked_task_is_runnable(s, cpu, 1);
    let n = s.tasks.len() as int;
    let offset = if i > s.rr_cursor {
        i - s.rr_cursor
    } else {
        i - s.rr_cursor + n
    };
    crate::bits::lemma_wrap(s.rr_cursor + offset, n);
    assert(s.at_offset(offset) == i);
    if s.eligible(cpu, i) {
        super::laws::law_round_robin(s, cpu, 1, offset);
    }
}

/// The task after the cursor comes first: of two tasks that can run, the one
/// nearer behind the cursor is picked before the other.
pub proof fn law_nearest_task_is_picked(s: SchedModel, cpu: usize, near: int, far: int)
    requires
        s.tasks.len() > 0,
        s.rr_cursor >= 0,
        1 <= near < far <= s.tasks.len(),
        s.eligible(cpu, (s.rr_cursor + near) % (s.tasks.len() as int)),
        s.eligible(cpu, (s.rr_cursor + far) % (s.tasks.len() as int)),
        forall|k: int| 1 <= k < near ==> !s.eligible(cpu, #[trigger] s.at_offset(k)),
    ensures
        s.next_for(cpu) == (s.rr_cursor + near) % (s.tasks.len() as int),
{
    lemma_skips(s, cpu, 1, near);
}

proof fn lemma_skips(s: SchedModel, cpu: usize, from: int, near: int)
    requires
        1 <= from <= near <= s.tasks.len(),
        s.eligible(cpu, s.at_offset(near)),
        forall|k: int| from <= k < near ==> !s.eligible(cpu, #[trigger] s.at_offset(k)),
    ensures
        s.eligible_from(cpu, from) == Some(s.at_offset(near)),
    decreases near - from,
{
    if from < near {
        assert(!s.eligible(cpu, s.at_offset(from)));
        lemma_skips(s, cpu, from + 1, near);
    }
}

/// Whom an ID finds: the first task of the ID that has not exited.
pub proof fn law_id_finds_the_first_live_task(s: SchedModel, tid: u32, from: int)
    requires
        0 <= from,
    ensures
        match s.live_from(tid, from) {
            Some(i) => {
                &&& from <= i < s.tasks.len()
                &&& s.tasks[i].id == tid
                &&& s.tasks[i].state != TaskState::Exited
                &&& forall|k: int|
                    from <= k < i ==> (#[trigger] s.tasks[k]).id != tid || s.tasks[k].state
                        == TaskState::Exited
            },
            None => forall|k: int|
                from <= k < s.tasks.len() ==> (#[trigger] s.tasks[k]).id != tid || s.tasks[k].state
                    == TaskState::Exited,
        },
        s.find_live(tid) == s.live_from(tid, 0),
    decreases s.tasks.len() - from,
{
    if from < s.tasks.len() {
        law_id_finds_the_first_live_task(s, tid, from + 1);
    }
}

/// Which CPUs are idle: those that run the idle task of their own, but for the
/// one that asks, by their interrupt-controller IDs and in order.
pub proof fn law_idle_cpus(s: SchedModel, exclude: usize, from: int, c: int)
    requires
        0 <= from <= c < s.cpus.len(),
        s.cpus[c].registered,
        s.cpus[c].current == Some(s.cpus[c].idle_idx),
        c != exclude,
        forall|k: int|
            from <= k < c ==> k == exclude || !(#[trigger] s.cpus[k]).registered || s.cpus[k].current
                != Some(s.cpus[k].idle_idx),
    ensures
        s.idle_cpus_from(exclude, from) == seq![s.cpus[c].apic_id] + s.idle_cpus_from(exclude, c + 1),
        from == 0 ==> s.find_idle_cpu(exclude) == Some(s.cpus[c].apic_id),
    decreases c - from,
{
    if from < c {
        assert(s.cpus[from] == s.cpus[from]);
        law_idle_cpus(s, exclude, from + 1, c);
    }
}

/// Where every CPU but the one that asks is at work, none is named.
pub proof fn law_no_idle_cpu(s: SchedModel, exclude: usize, from: int)
    requires
        0 <= from,
        forall|k: int|
            from <= k < s.cpus.len() ==> k == exclude || !(#[trigger] s.cpus[k]).registered
                || s.cpus[k].current != Some(s.cpus[k].idle_idx),
    ensures
        s.idle_cpus_from(exclude, from) == Seq::<u32>::empty(),
        from == 0 ==> s.find_idle_cpu(exclude) is None,
    decreases s.cpus.len() - from,
{
    if from < s.cpus.len() {
        assert(s.cpus[from] == s.cpus[from]);
        law_no_idle_cpu(s, exclude, from + 1);
    }
}

/// Who is told of sleepers that wake: one idle CPU for each sleeper but the
/// first, which the CPU itself takes, as far as there are any; without an
/// interrupt controller none.
pub proof fn law_idle_cpus_are_kicked(s: SchedModel, cpu: usize)
    ensures
        s.kicks(cpu, false).len() == 0,
        s.kicks(cpu, true).is_prefix_of(s.idle_cpus(cpu)),
        s.due_from(0) <= 1 ==> s.kicks(cpu, true).len() == 0,
        s.due_from(0) > 1 && s.due_from(0) - 1 <= s.idle_cpus(cpu).len() ==> s.kicks(cpu, true).len()
            == s.due_from(0) - 1,
        s.due_from(0) > 1 && s.due_from(0) - 1 > s.idle_cpus(cpu).len() ==> s.kicks(cpu, true)
            == s.idle_cpus(cpu),
{
}

/// How many sleepers are due: one for each Sleeping task whose deadline is not
/// ahead of the clock.
pub proof fn law_due_sleepers_are_counted(s: SchedModel, i: int)
    requires
        0 <= i < s.tasks.len(),
    ensures
        s.due_from(s.tasks.len() as int) == 0,
        s.due_from(i) == s.due_from(i + 1) + (if s.tasks[i].state == TaskState::Sleeping
            && s.tasks[i].wake_tick <= s.jiffies {
            1int
        } else {
            0
        }),
{
}

/// Why a request is refused: a task cannot ask itself; the receiver has to
/// live; and no more than 32 requests wait for it.
pub proof fn law_request_refusals(s: SchedModel, cpu: usize, receiver: u32)
    ensures
        ({
            let r = s.request_refused(cpu, receiver);
            let found = s.find_live(receiver);
            &&& receiver == s.current_id(cpu) <==> r == Some(RqbStatus::InvalidParam)
            &&& receiver != s.current_id(cpu) && found is None <==> r == Some(RqbStatus::NotFound)
            &&& receiver != s.current_id(cpu) && found is Some && s.tasks[found->0].inbox.len() >= 32
                <==> r == Some(RqbStatus::Busy)
            &&& receiver != s.current_id(cpu) && found is Some && s.tasks[found->0].inbox.len() < 32 <==> r
                is None
        }),
{
}

/// Why a reply is refused: the sender has to live, and to wait for an answer
/// of the task that replies, with none given yet.
pub proof fn law_reply_refusals(s: SchedModel, cpu: usize, sender: u32)
    ensures
        ({
            let r = s.reply_refused(cpu, sender);
            let found = s.find_live(sender);
            let t = s.tasks[found->0];
            let waits = t.state == TaskState::WaitingReply && t.wait_for == s.current_id(cpu) && t.reply
                is None;
            &&& found is None <==> r == Some(RqbStatus::NotFound)
            &&& found is Some && !waits <==> r == Some(RqbStatus::InvalidParam)
            &&& found is Some && waits <==> r is None
        }),
{
}

/// Asking for a request: the oldest leaves the inbox; where there is none the
/// task waits for one, if it is to, and else nothing changes. No other task
/// changes.
pub proof fn law_taking_a_request(s: SchedModel, cpu: usize, block: bool, i: int)
    requires
        s.inv(),
        s.running(cpu),
        0 <= i < s.tasks.len(),
    ensures
        ({
            let me = s.current(cpu);
            let post = s.request_taken(cpu, block);
            let inbox = s.tasks[me].inbox;
            &&& post.tasks.len() == s.tasks.len()
            &&& i != me ==> post.tasks[i] == s.tasks[i]
            &&& inbox.len() > 0 ==> post.tasks[me].inbox.len() == inbox.len() - 1 && post.tasks[me].state
                == s.tasks[me].state
            &&& inbox.len() > 0 ==> forall|k: int|
                0 <= k < inbox.len() - 1 ==> post.tasks[me].inbox[k] == #[trigger] inbox[k + 1]
            &&& inbox.len() == 0 && block ==> post.tasks[me].state == TaskState::WaitingRqb
            &&& inbox.len() == 0 && !block ==> post == s
        }),
{
    assert(s.cpu_inv(cpu as int));
}

/// A task that is put to sleep sleeps to its deadline; no other task changes.
pub proof fn law_going_to_sleep(s: SchedModel, cpu: usize, until: u64, i: int)
    requires
        s.inv(),
        s.running(cpu),
        0 <= i < s.tasks.len(),
    ensures
        ({
            let me = s.current(cpu);
            let post = s.sleeping(cpu, until);
            &&& post.tasks[me].state == TaskState::Sleeping
            &&& post.tasks[me].wake_tick == until
            &&& post.tasks[me].id == s.tasks[me].id
            &&& post.tasks[me].context_ptr == s.tasks[me].context_ptr
            &&& post.tasks.len() == s.tasks.len()
            &&& i != me ==> post.tasks[i] == s.tasks[i]
            &&& post.cpus == s.cpus
            &&& post.jiffies == s.jiffies
        }),
{
    assert(s.cpu_inv(cpu as int));
}

/// An exit takes the requests of the task with it.
pub proof fn law_exited_task_holds_nothing(s: SchedModel, cpu: usize, i: int)
    requires
        s.inv(),
        s.running(cpu),
        0 <= i < s.tasks.len(),
    ensures
        ({
            let me = s.current(cpu);
            let post = s.exited(cpu);
            &&& post.tasks[me].state == TaskState::Exited
            &&& post.tasks[me].inbox.len() == 0
            &&& post.tasks[me].id == s.tasks[me].id
            &&& i != me ==> post.tasks[i] == s.tasks[i]
        }),
{
    assert(s.cpu_inv(cpu as int));
}

/// A new task comes last in the table, under the next ID; IDs are counted on
/// from zero after the largest.
pub proof fn law_new_task_comes_last(s: SchedModel, t: TaskModel, i: int)
    requires
        0 <= i < s.tasks.len(),
    ensures
        s.added(t).tasks.len() == s.tasks.len() + 1,
        s.added(t).tasks.last() == t,
        s.added(t).tasks[i] == s.tasks[i],
        s.next_id < u32::MAX ==> s.added(t).next_id == s.next_id + 1,
        s.next_id == u32::MAX ==> s.added(t).next_id == 0,
        s.added(t).cpus == s.cpus,
        s.added(t).jiffies == s.jiffies,
{
}

/// A new task can run: it is Ready on no CPU and bound to none, has its stack,
/// with its first context 16-byte aligned at the top of it, and nothing else
/// yet.
pub proof fn law_new_task_can_run(
    id: u32,
    bottom: u64,
    len: u64,
    frame: u64,
    priority: u8,
    name: Seq<char>,
    user: bool,
)
    requires
        stack_holds_context(bottom, len, frame),
    ensures
        ({
            let t = fresh_task(id, bottom, len, frame, priority, name, user);
            &&& t.id == id
            &&& t.state == TaskState::Ready
            &&& t.priority == priority
            &&& t.name == name
            &&& t.user == user
            &&& t.kernel_stack_bottom == bottom
            &&& t.kernel_stack_top == bottom + len
            &&& bottom <= t.context_ptr
            &&& t.context_ptr % 16 == 0
            &&& bottom + len - frame - 16 < t.context_ptr <= bottom + len - frame
            &&& t.on_cpu is None && t.pinned_cpu is None
            &&& t.inbox.len() == 0 && t.reply is None
            &&& t.total_ticks == 0
        }),
{
}

/// A CPU that registers runs what it ran as its idle task, which is bound to
/// it and of the lowest priority; other CPUs do not change.
pub proof fn law_registered_cpu_has_its_idle_task(s: SchedModel, cpu: usize, apic_id: u32, c: int)
    requires
        s.inv(),
        cpu < 64,
        0 <= c < 64,
    ensures
        ({
            let post = s.cpu_registered(cpu, apic_id);
            let n = s.tasks.len() as int;
            &&& post.running(cpu)
            &&& post.current(cpu) == n
            &&& post.cpus[cpu as int].idle_idx == n
            &&& post.cpus[cpu as int].apic_id == apic_id
            &&& post.tasks[n].state == TaskState::Running
            &&& post.tasks[n].priority == 31
            &&& post.tasks[n].pinned_cpu == Some(cpu as u8)
            &&& post.tasks[n].on_cpu == Some(cpu as u8)
            &&& post.tasks[n].id == s.next_id
            &&& post.tasks.take(n) == s.tasks
            &&& c != cpu ==> post.cpus[c] == s.cpus[c]
        }),
{
    assert(s.cpu_registered(cpu, apic_id).tasks.take(s.tasks.len() as int) =~= s.tasks);
}

/// A CPU is found by its interrupt-controller ID, of which the low byte
/// counts.
pub proof fn law_cpu_is_found_by_its_controller(s: SchedModel, cpu: usize, apic_id: u32, other: u32)
    requires
        s.inv(),
        cpu < 64,
    ensures
        s.mapped(cpu, apic_id).apic_to_cpu[(apic_id % 256) as int] == cpu,
        other % 256 != apic_id % 256 ==> s.mapped(cpu, apic_id).apic_to_cpu[(other % 256) as int]
            == s.apic_to_cpu[(other % 256) as int],
{
}

/// The codes of the statuses.
pub proof fn law_status_codes()
    ensures
        RqbStatus::Success.spec_code() == 0,
        RqbStatus::GeneralFailure.spec_code() == 1,
        RqbStatus::InvalidService.spec_code() == 2,
        RqbStatus::InvalidParam.spec_code() == 3,
        RqbStatus::Timeout.spec_code() == 4,
        RqbStatus::NoMemory.spec_code() == 5,
        RqbStatus::AccessDenied.spec_code() == 6,
        RqbStatus::NotFound.spec_code() == 7,
        RqbStatus::Busy.spec_code() == 8,
        RqbStatus::Aborted.spec_code() == 9,
{
}

/// The payload of a message is its data from the start, as long as the message
/// says, at most 64 bytes.
pub proof fn law_payload_is_the_data(r: Rqb, i: int)
    ensures
        r.data_size <= 64 ==> r.payload().len() == r.data_size,
        r.data_size > 64 ==> r.payload().len() == 64,
        0 <= i < r.payload().len() ==> r.payload()[i] == r.data@[i],
{
}

/// A message that was composed has its service, status and payload, and zeros
/// in all else.
pub proof fn law_composed_message(r: Rqb, service: u16, status: RqbStatus, payload: Seq<u8>, i: int)
    requires
        payload.len() <= 64,
        r.composed(service, status, payload),
    ensures
        r.service == service,
        status_of_code(r.status) == status,
        r.sender_id == 0,
        r.receiver_id == 0,
        r.data_size == payload.len(),
        r.reserved@[0] == 0 && r.reserved@[1] == 0,
        0 <= i < payload.len() ==> r.data@[i] == payload[i],
        payload.len() <= i < 64 ==> r.data@[i] == 0,
{
}

/// A blank message holds zeros.
pub proof fn law_blank_message(r: Rqb, i: int)
    requires
        r.is_blank(),
    ensures
        r.service == 0 && r.status == 0 && r.sender_id == 0 && r.receiver_id == 0 && r.data_size == 0,
        r.reserved@[0] == 0 && r.reserved@[1] == 0,
        0 <= i < 64 ==> r.data@[i] == 0,
{
}

/// The kernel stamps who sent a message and to whom, and leaves the rest.
pub proof fn law_stamp(r: Rqb, sender: u32, receiver: u32)
    ensures
        r.stamped(sender, receiver).sender_id == sender,
        r.stamped(sender, receiver).receiver_id == receiver,
        r.stamped(sender, receiver).service == r.service,
        r.stamped(sender, receiver).status == r.status,
        r.stamped(sender, receiver).data_size == r.data_size,
        r.stamped(sender, receiver).data == r.data,
{
}

/// The legacy timer is set up as a square wave of its 1193182 Hz divided down
/// to a hundred: the command, then the divisor, low byte first.
pub proof fn law_legacy_timer_rate()
    ensures
        ({
            let ops = pit_ops();
            &&& ops.len() == 3
            &&& ops[0] == (IoOp::Out8 { port: 0x43, value: 0x36 })
            &&& ops[1] is Out8 && ops[1]->Out8_port == 0x40
            &&& ops[2] is Out8 && ops[2]->Out8_port == 0x40
            &&& ({
                let divisor = ops[1]->Out8_value + 256 * ops[2]->Out8_value;
                100 * divisor <= 1193182 < 100 * (divisor + 1)
            })
        }),
{
}

/// The reply of a task that is gone names the two tasks, says that it was aborted (9), and holds
/// nothing else.
pub proof fn law_aborted_reply(r: Rqb, from: u32, to: u32, i: int)
    requires
        is_aborted_reply(r, from, to),
        0 <= i < r.data@.len(),
    ensures
        r.sender_id == from,
        r.receiver_id == to,
        r.status == 9,
        r.service == 0,
        r.data_size == 0,
        r.data@[i] == 0,
{
    let blank = Rqb { sender_id: 0, receiver_id: 0, status: 0, ..r };
    assert(blank.is_blank());
    assert(blank.data@ == r.data@);
}

} // verus!
