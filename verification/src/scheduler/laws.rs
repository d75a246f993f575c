//! Laws of the scheduler and of its message passing.

use vstd::prelude::*;
use super::model::{is_aborted_reply, SchedModel};
use super::rqb::Rqb;
use super::task::{TaskModel, TaskState, PRIORITY_IDLE};

verus! {

impl SchedModel {
    /// No two tasks share an ID.
    pub open spec fn ids_unique(self) -> bool {
        forall|i: int, j: int|
            0 <= i < j < self.tasks.len() ==> #[trigger] self.tasks[i].id != #[trigger] self.tasks[j].id
    }

    /// Every ID handed out lies below the next one.
    pub open spec fn ids_below_next(self) -> bool {
        forall|i: int| 0 <= i < self.tasks.len() ==> (#[trigger] self.tasks[i]).id < self.next_id
    }
}

/// No task runs on two CPUs.
pub proof fn law_no_task_on_two_cpus(s: SchedModel, c: usize, d: usize)
    requires
        s.inv(),
        s.running(c),
        s.running(d),
        c != d,
    ensures
        s.current(c) != s.current(d),
{
    assert(s.cpu_inv(c as int));
    assert(s.cpu_inv(d as int));
}

/// The task in turn is Ready, its context is saved, and it may run here.
pub proof fn law_picked_task_is_runnable(s: SchedModel, cpu: usize, offset: int)
    requires
        s.tasks.len() > 0,
        s.rr_cursor >= 0,
        offset >= 0,
    ensures
        s.eligible_from(cpu, offset) is Some ==> {
            let i = s.eligible_from(cpu, offset)->0;
            &&& 0 <= i < s.tasks.len()
            &&& s.tasks[i].state == TaskState::Ready
            &&& s.tasks[i].on_cpu is None
            &&& s.tasks[i].priority != PRIORITY_IDLE
            &&& s.tasks[i].pinned_cpu is Some ==> s.tasks[i].pinned_cpu->0 as int == cpu as int
        },
    decreases s.tasks.len() + 1 - offset,
{
    vstd::arithmetic::div_mod::lemma_mod_bound(s.rr_cursor + offset, s.tasks.len() as int);
    if offset <= s.tasks.len() && !s.eligible(cpu, s.at_offset(offset)) {
        law_picked_task_is_runnable(s, cpu, offset + 1);
    }
}

/// Nothing that could run before the task in turn is passed over: if the task
/// `offset` places after the cursor is eligible, the one picked is no further
/// from the cursor.
pub proof fn law_round_robin(s: SchedModel, cpu: usize, from: int, offset: int)
    requires
        1 <= from <= offset <= s.tasks.len(),
        s.eligible(cpu, s.at_offset(offset)),
    ensures
        exists|k: int|
            from <= k <= offset && s.eligible(cpu, s.at_offset(k)) && s.eligible_from(cpu, from) == Some(
                #[trigger] s.at_offset(k),
            ),
    decreases offset - from,
{
    if s.eligible(cpu, s.at_offset(from)) {
        assert(s.eligible_from(cpu, from) == Some(s.at_offset(from)));
    } else {
        law_round_robin(s, cpu, from + 1, offset);
    }
}

/// Every pick brings the turn of a task that could run nearer: either it is
/// the one picked, or fewer places lie between it and the cursor afterwards.
pub proof fn law_turn_comes_nearer(s: SchedModel, cpu: usize, offset: int)
    requires
        1 <= offset <= s.tasks.len(),
        s.rr_cursor >= 0,
        s.eligible(cpu, s.at_offset(offset)),
    ensures
        ({
            let i = s.at_offset(offset);
            let post = s.picked(cpu);
            ||| s.in_turn(cpu) == Some(i)
            ||| exists|nearer: int| 1 <= nearer < offset && #[trigger] post.at_offset(nearer) == i
        }),
{
    law_round_robin(s, cpu, 1, offset);
    let k = choose|k: int|
        1 <= k <= offset && s.eligible(cpu, s.at_offset(k)) && s.eligible_from(cpu, 1) == Some(
            #[trigger] s.at_offset(k),
        );
    if k < offset {
        let n = s.tasks.len() as int;
        let post = s.picked(cpu);
        assert(post.rr_cursor == (s.rr_cursor + k) % n);
        vstd::arithmetic::div_mod::lemma_add_mod_noop(s.rr_cursor + k, offset - k, n);
        vstd::arithmetic::div_mod::lemma_add_mod_noop((s.rr_cursor + k) % n, offset - k, n);
        vstd::arithmetic::div_mod::lemma_mod_twice(s.rr_cursor + k, n);
        assert(post.at_offset(offset - k) == s.at_offset(offset));
    }
}

/// A sleeper wakes neither early nor late: it sleeps on while its deadline
/// lies ahead of the clock, and is Ready or Running after the first tick at
/// or past the deadline.
pub proof fn law_sleep_until_deadline(s: SchedModel, cpu: usize, sp: u64, timer: bool, i: int)
    requires
        s.inv(),
        s.running(cpu),
        0 <= i < s.tasks.len(),
        s.tasks[i].state == TaskState::Sleeping,
        s.tasks[i].priority != PRIORITY_IDLE,
    ensures
        ({
            let now = s.ticked(cpu, timer).jiffies;
            let t = s.after_tick(cpu, sp, timer).tasks[i];
            &&& s.tasks[i].wake_tick > now ==> t.state == TaskState::Sleeping
            &&& s.tasks[i].wake_tick <= now ==> t.state == TaskState::Ready || t.state
                == TaskState::Running
        }),
{
    assert(s.cpu_inv(cpu as int));
    law_picked_task_is_runnable(s.before_pick(cpu, sp, timer), cpu, 1);
}

/// The first live task with the ID of a live task is that task, where IDs are
/// unique.
pub proof fn lemma_find_live(s: SchedModel, i: int, from: int)
    requires
        s.ids_unique(),
        0 <= from <= i < s.tasks.len(),
        s.tasks[i].state != TaskState::Exited,
    ensures
        s.live_from(s.tasks[i].id, from) == Some(i),
    decreases i - from,
{
    if from < i {
        assert(s.tasks[from].id != s.tasks[i].id);
        lemma_find_live(s, i, from + 1);
    }
}

/// A live task that is found has the ID, and is live.
pub proof fn lemma_found_is_live(s: SchedModel, tid: u32, from: int)
    requires
        0 <= from,
    ensures
        s.live_from(tid, from) is Some ==> {
            let i = s.live_from(tid, from)->0;
            &&& from <= i < s.tasks.len()
            &&& s.tasks[i].id == tid
            &&& s.tasks[i].state != TaskState::Exited
        },
    decreases s.tasks.len() - from,
{
    if from < s.tasks.len() && !(s.tasks[from].id == tid && s.tasks[from].state != TaskState::Exited) {
        lemma_found_is_live(s, tid, from + 1);
    }
}

/// A request reaches its receiver: after it is accepted it is the newest in
/// the receiver's inbox, stamped with its sender, the sender is blocked on
/// the receiver, and a receiver that waited for a message is Ready.
pub proof fn law_request_is_delivered(s: SchedModel, cpu: usize, receiver: u32, msg: Rqb)
    requires
        s.inv(),
        s.running(cpu),
        s.request_refused(cpu, receiver) is None,
    ensures
        ({
            let me = s.current(cpu);
            let ri = s.find_live(receiver)->0;
            let post = s.request_posted(cpu, receiver, msg);
            &&& ri != me
            &&& s.tasks[ri].id == receiver
            &&& post.tasks[ri].inbox == s.tasks[ri].inbox.push(msg.stamped(s.tasks[me].id, receiver))
            &&& post.tasks[me].awaits(receiver)
            &&& s.tasks[ri].state == TaskState::WaitingRqb ==> post.tasks[ri].state == TaskState::Ready
            &&& s.tasks[ri].state != TaskState::WaitingRqb ==> post.tasks[ri].state
                == s.tasks[ri].state
            &&& forall|i: int|
                0 <= i < s.tasks.len() && i != me && i != ri ==> #[trigger] post.tasks[i] == s.tasks[i]
        }),
{
    assert(s.cpu_inv(cpu as int));
    lemma_found_is_live(s, receiver, 0);
}

/// Messages are received in the order in which they were queued.
pub proof fn law_inbox_is_fifo(s: SchedModel, cpu: usize, k: int)
    requires
        s.inv(),
        s.running(cpu),
        0 <= k < s.tasks[s.current(cpu)].inbox.len() - 1,
    ensures
        ({
            let post = s.request_taken(cpu, true);
            &&& post.tasks[post.current(cpu)].inbox[k] == s.tasks[s.current(cpu)].inbox[k + 1]
            &&& post.tasks[post.current(cpu)].inbox.len() == s.tasks[s.current(cpu)].inbox.len() - 1
        }),
{
    assert(s.cpu_inv(cpu as int));
}

/// An exit strands nobody: afterwards no task awaits the one that exited, and
/// each that did has an Aborted reply from it and is Ready. Where IDs are
/// unique, sending to it then finds no task.
pub proof fn law_exit_strands_nobody(s: SchedModel, cpu: usize, post: SchedModel, i: int)
    requires
        s.inv(),
        s.running(cpu),
        s.exited(cpu).aborted(s.current_id(cpu), post),
        0 <= i < s.tasks.len(),
    ensures
        ({
            let id = s.current_id(cpu);
            &&& !post.awaited(id)
            &&& s.ids_unique() ==> post.find_live(id) is None
            &&& i != s.current(cpu) && s.tasks[i].awaits(id) ==> {
                &&& post.tasks[i].state == TaskState::Ready
                &&& post.tasks[i].reply is Some
                &&& is_aborted_reply(post.tasks[i].reply->0, id, s.tasks[i].id)
            }
        }),
{
    let me = s.current(cpu);
    let id = s.current_id(cpu);
    let mid = s.exited(cpu);
    assert(s.cpu_inv(cpu as int));
    assert(mid.task_aborted(id, post.tasks[i], i));
    assert forall|k: int| 0 <= k < post.tasks.len() implies !(#[trigger] post.tasks[k]).awaits(id) by {
        assert(mid.task_aborted(id, post.tasks[k], k));
    }
    if s.ids_unique() {
        assert forall|k: int| 0 <= k < post.tasks.len() && (#[trigger] post.tasks[k]).id == id implies
            post.tasks[k].state == TaskState::Exited by {
            assert(mid.task_aborted(id, post.tasks[k], k));
            if k < me {
                assert(s.tasks[k].id != s.tasks[me].id);
            } else if me < k {
                assert(s.tasks[me].id != s.tasks[k].id);
            }
        }
        lemma_found_is_live(post, id, 0);
    }
}

/// A new task's ID is new: as long as the counter has not wrapped, creating
/// tasks and registering CPUs keeps all IDs apart.
pub proof fn law_task_ids_stay_unique(s: SchedModel, t: TaskModel, cpu: usize, apic_id: u32)
    requires
        s.ids_unique(),
        s.ids_below_next(),
        s.next_id < u32::MAX,
        t.id == s.next_id,
    ensures
        s.added(t).ids_unique(),
        s.added(t).ids_below_next(),
        s.cpu_registered(cpu, apic_id).ids_unique(),
        s.cpu_registered(cpu, apic_id).ids_below_next(),
{
}

} // verus!
