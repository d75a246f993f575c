//! What tasks can rely on over any run of the scheduler: requests and replies,
//! sleep and exit.

use vstd::prelude::*;
use super::laws::{law_exit_strands_nobody, law_picked_task_is_runnable, lemma_find_live, lemma_found_is_live};
use super::model::{is_aborted_reply, SchedModel, MAX_CPUS};
use super::rqb::{status_of_code, Rqb, RqbStatus};
use super::task::{TaskModel, TaskState, PRIORITY_IDLE};

verus! {

/// An operation on the scheduler.
pub enum Step {
    /// A timer tick, a reschedule IPI or a yield on `cpu`.
    Tick { cpu: usize, sp: u64, timer: bool },
    /// The task on `cpu` sends a request.
    Request { cpu: usize, receiver: u32, msg: Rqb },
    /// The task on `cpu` asks for a request.
    Take { cpu: usize, block: bool },
    /// The task on `cpu` replies to task `to`.
    Reply { cpu: usize, to: u32, msg: Rqb },
    /// The task on `cpu` asks for its reply.
    Poll { cpu: usize },
    /// The task on `cpu` sleeps.
    Sleep { cpu: usize, until: u64 },
    /// The task on `cpu` exits.
    Exit { cpu: usize },
    /// A task is created.
    Create { task: TaskModel },
    /// A CPU is registered.
    Register { cpu: usize, apic_id: u32 },
}

impl SchedModel {
    /// `step` takes this state to `post`. A request or a reply that is refused
    /// changes nothing.
    pub open spec fn stepped(self, step: Step, post: SchedModel) -> bool {
        match step {
            Step::Tick { cpu, sp, timer } => cpu < MAX_CPUS && post == self.after_tick(cpu, sp, timer),
            Step::Request { cpu, receiver, msg } => self.running(cpu) && post
                == if self.request_refused(cpu, receiver) is None {
                self.request_posted(cpu, receiver, msg)
            } else {
                self
            },
            Step::Take { cpu, block } => self.running(cpu) && post == self.request_taken(cpu, block),
            Step::Reply { cpu, to, msg } => self.running(cpu) && post == if self.reply_refused(
                cpu,
                to,
            ) is None {
                self.reply_posted(cpu, to, msg)
            } else {
                self
            },
            Step::Poll { cpu } => self.running(cpu) && post == self.reply_taken(cpu),
            Step::Sleep { cpu, until } => self.running(cpu) && post == self.sleeping(cpu, until),
            Step::Exit { cpu } => self.running(cpu) && self.exited(cpu).aborted(
                self.current_id(cpu),
                post,
            ),
            Step::Create { task } => task.id == self.next_id && post == self.added(task),
            Step::Register { cpu, apic_id } => cpu < MAX_CPUS && post == self.cpu_registered(
                cpu,
                apic_id,
            ).mapped(cpu, apic_id),
        }
    }

    /// Task `i` itself does something other than ask for its reply.
    pub open spec fn acts(self, step: Step, i: int) -> bool {
        match step {
            Step::Request { cpu, .. } => self.current(cpu) == i,
            Step::Take { cpu, .. } => self.current(cpu) == i,
            Step::Reply { cpu, .. } => self.current(cpu) == i,
            Step::Sleep { cpu, .. } => self.current(cpu) == i,
            Step::Exit { cpu } => self.current(cpu) == i,
            _ => false,
        }
    }

    /// The task with ID `id`, on which task `i` is blocked, replies to it or
    /// exits.
    pub open spec fn settles(self, step: Step, i: int, id: u32) -> bool {
        self.tasks[i].awaits(id) && match step {
            Step::Reply { cpu, to, .. } => self.current_id(cpu) == id && self.find_live(to) == Some(i),
            Step::Exit { cpu } => self.current_id(cpu) == id,
            _ => false,
        }
    }

    /// Task `i` asks for its reply.
    pub open spec fn polls(self, step: Step, i: int) -> bool {
        match step {
            Step::Poll { cpu } => self.current(cpu) == i,
            _ => false,
        }
    }
}

/// Step `k` leads from state `k` to the next.
pub open spec fn leads_on(states: Seq<SchedModel>, steps: Seq<Step>, k: int) -> bool {
    states[k].stepped(steps[k], states[k + 1])
}

/// A run of the scheduler: `steps` lead through `states`.
pub open spec fn history(states: Seq<SchedModel>, steps: Seq<Step>) -> bool {
    &&& states.len() == steps.len() + 1
    &&& forall|k: int| 0 <= k < states.len() ==> (#[trigger] states[k]).inv()
    &&& forall|k: int| 0 <= k < steps.len() ==> #[trigger] leads_on(states, steps, k)
}

impl TaskModel {
    /// Has asked task `id` and got no answer: blocked for it or, as an idle
    /// task can be, dispatched all the same.
    pub open spec fn unanswered(self, id: u32) -> bool {
        &&& self.wait_for == id
        &&& self.reply is None
        &&& self.state == TaskState::WaitingReply || self.priority == PRIORITY_IDLE && (self.state
            == TaskState::Ready || self.state == TaskState::Running)
    }
}

/// What a step relies on: its CPU agrees with its tasks, the task that is
/// picked or found is one that can be, and an exit does its part for task `i`.
proof fn lemma_step(s: SchedModel, step: Step, post: SchedModel, i: int)
    requires
        s.inv(),
        s.stepped(step, post),
        0 <= i < s.tasks.len(),
    ensures
        match step {
            Step::Tick { cpu, sp, timer } => {
                let ready = s.before_pick(cpu, sp, timer);
                &&& s.cpu_inv(cpu as int)
                &&& s.cpus[cpu as int].registered && ready.in_turn(cpu) is Some ==> {
                    let k = ready.in_turn(cpu)->0;
                    &&& 0 <= k < ready.tasks.len()
                    &&& ready.tasks[k].state == TaskState::Ready
                }
            },
            Step::Request { cpu, receiver, .. } => {
                &&& s.cpu_inv(cpu as int)
                &&& s.find_live(receiver) is Some ==> {
                    let k = s.find_live(receiver)->0;
                    &&& 0 <= k < s.tasks.len()
                    &&& s.tasks[k].id == receiver
                    &&& s.tasks[k].state != TaskState::Exited
                }
            },
            Step::Reply { cpu, to, .. } => {
                &&& s.cpu_inv(cpu as int)
                &&& s.find_live(to) is Some ==> {
                    let k = s.find_live(to)->0;
                    &&& 0 <= k < s.tasks.len()
                    &&& s.tasks[k].id == to
                    &&& s.tasks[k].state != TaskState::Exited
                }
            },
            Step::Take { cpu, .. } => s.cpu_inv(cpu as int),
            Step::Poll { cpu } => s.cpu_inv(cpu as int),
            Step::Sleep { cpu, .. } => s.cpu_inv(cpu as int),
            Step::Exit { cpu } => {
                &&& s.cpu_inv(cpu as int)
                &&& s.exited(cpu).task_aborted(s.current_id(cpu), post.tasks[i], i)
            },
            _ => true,
        },
{
    match step {
        Step::Tick { cpu, sp, timer } => {
            assert(s.cpu_inv(cpu as int));
            if s.cpus[cpu as int].registered {
                law_picked_task_is_runnable(s.before_pick(cpu, sp, timer), cpu, 1);
            }
        },
        Step::Request { cpu, receiver, .. } => {
            assert(s.cpu_inv(cpu as int));
            lemma_found_is_live(s, receiver, 0);
        },
        Step::Take { cpu, .. } => {
            assert(s.cpu_inv(cpu as int));
        },
        Step::Reply { cpu, to, .. } => {
            assert(s.cpu_inv(cpu as int));
            lemma_found_is_live(s, to, 0);
        },
        Step::Poll { cpu } => {
            assert(s.cpu_inv(cpu as int));
        },
        Step::Sleep { cpu, .. } => {
            assert(s.cpu_inv(cpu as int));
        },
        Step::Exit { cpu } => {
            assert(s.cpu_inv(cpu as int));
            assert(s.exited(cpu).task_aborted(s.current_id(cpu), post.tasks[i], i));
        },
        _ => {},
    }
}

/// A task that is blocked for an answer stays so, with nothing in its slot,
/// through every step of others but one: that the task it waits for replies
/// to it or exits. An idle task is left out, as its CPU's last resort.
pub proof fn law_only_an_answer_ends_a_wait(s: SchedModel, step: Step, post: SchedModel, i: int, id: u32)
    requires
        s.inv(),
        s.stepped(step, post),
        0 <= i < s.tasks.len(),
        s.tasks[i].awaits(id),
        s.tasks[i].priority != PRIORITY_IDLE,
        !s.acts(step, i),
        !s.settles(step, i, id),
    ensures
        i < post.tasks.len(),
        post.tasks[i].awaits(id),
        post.tasks[i].id == s.tasks[i].id,
        post.tasks[i].priority == s.tasks[i].priority,
{
    lemma_step(s, step, post, i);
}

/// A task that has asked stays unanswered, an idle task too, through every
/// step of others but one: that the task it is blocked on replies to it or
/// exits. Asking for the reply does not help it.
pub proof fn law_only_an_answer_answers(s: SchedModel, step: Step, post: SchedModel, i: int, id: u32)
    requires
        s.inv(),
        s.stepped(step, post),
        0 <= i < s.tasks.len(),
        s.tasks[i].unanswered(id),
        !s.acts(step, i),
        !s.settles(step, i, id),
    ensures
        i < post.tasks.len(),
        post.tasks[i].unanswered(id),
        post.tasks[i].id == s.tasks[i].id,
        post.tasks[i].priority == s.tasks[i].priority,
{
    lemma_step(s, step, post, i);
}

/// The reply of the awaited task is accepted, whatever else is queued for
/// either, where the ID of the task that waited finds it: the reply lies in
/// its slot, stamped with both IDs, that task is Ready, and no other task
/// changes.
pub proof fn law_awaited_reply_is_accepted(
    s: SchedModel,
    other: usize,
    i: int,
    answer: Rqb,
)
    requires
        s.inv(),
        s.running(other),
        0 <= i < s.tasks.len(),
        s.find_live(s.tasks[i].id) == Some(i),
        s.tasks[i].awaits(s.current_id(other)),
    ensures
        ({
            let id = s.tasks[i].id;
            let post = s.reply_posted(other, id, answer);
            &&& s.reply_refused(other, id) is None
            &&& s.settles(Step::Reply { cpu: other, to: id, msg: answer }, i, s.current_id(other))
            &&& post.tasks[i] == (TaskModel {
                reply: Some(answer.stamped(s.current_id(other), id)),
                state: TaskState::Ready,
                ..s.tasks[i]
            })
            &&& post.tasks.len() == s.tasks.len()
            &&& forall|j: int| 0 <= j < s.tasks.len() && j != i ==> #[trigger] post.tasks[j] == s.tasks[j]
        }),
{
}

/// A reply that was delivered stays in its slot, and its task Ready or
/// Running, until that task asks for it or does something else.
pub proof fn law_delivered_reply_stays(s: SchedModel, step: Step, post: SchedModel, i: int)
    requires
        s.inv(),
        s.stepped(step, post),
        0 <= i < s.tasks.len(),
        s.tasks[i].reply is Some,
        s.tasks[i].state == TaskState::Ready || s.tasks[i].state == TaskState::Running,
        !s.acts(step, i),
        !s.polls(step, i),
    ensures
        i < post.tasks.len(),
        post.tasks[i].reply == s.tasks[i].reply,
        post.tasks[i].state == TaskState::Ready || post.tasks[i].state == TaskState::Running,
{
    lemma_step(s, step, post, i);
}

/// A task that has exited stays exited, whatever others do. An idle task is
/// left out, as its CPU's last resort.
pub proof fn law_exited_is_final(s: SchedModel, step: Step, post: SchedModel, i: int)
    requires
        s.inv(),
        s.stepped(step, post),
        0 <= i < s.tasks.len(),
        s.tasks[i].state == TaskState::Exited,
        s.tasks[i].priority != PRIORITY_IDLE,
        !s.acts(step, i),
        !s.polls(step, i),
    ensures
        i < post.tasks.len(),
        post.tasks[i].state == TaskState::Exited,
{
    lemma_step(s, step, post, i);
}

/// Nothing but the clock wakes a sleeper: it sleeps on, to the same deadline,
/// through every step of others that is no tick. An idle task is left out, as
/// its CPU's last resort.
pub proof fn law_only_the_clock_wakes(s: SchedModel, step: Step, post: SchedModel, i: int)
    requires
        s.inv(),
        s.stepped(step, post),
        0 <= i < s.tasks.len(),
        s.tasks[i].state == TaskState::Sleeping,
        s.tasks[i].priority != PRIORITY_IDLE,
        !s.acts(step, i),
        !s.polls(step, i),
        !(step is Tick),
    ensures
        i < post.tasks.len(),
        post.tasks[i].state == TaskState::Sleeping,
        post.tasks[i].wake_tick == s.tasks[i].wake_tick,
{
    lemma_step(s, step, post, i);
}

/// A queued request keeps its place: whatever others do, the inbox of a task
/// only grows at its end.
pub proof fn law_queued_request_keeps_its_place(s: SchedModel, step: Step, post: SchedModel, i: int)
    requires
        s.inv(),
        s.stepped(step, post),
        0 <= i < s.tasks.len(),
        !s.acts(step, i),
    ensures
        i < post.tasks.len(),
        s.tasks[i].inbox.is_prefix_of(post.tasks[i].inbox),
{
    lemma_step(s, step, post, i);
}

/// No step changes the ID of a task, and as long as the counter has not
/// wrapped all IDs stay apart.
pub proof fn law_steps_keep_ids(s: SchedModel, step: Step, post: SchedModel)
    requires
        s.inv(),
        s.stepped(step, post),
        s.ids_unique(),
        s.ids_below_next(),
        s.next_id < u32::MAX,
    ensures
        s.tasks.len() <= post.tasks.len(),
        forall|j: int| 0 <= j < s.tasks.len() ==> #[trigger] post.tasks[j].id == s.tasks[j].id,
        post.ids_unique(),
        post.ids_below_next(),
{
    match step {
        Step::Tick { cpu, sp, timer } => {
            assert(s.cpu_inv(cpu as int));
            if s.cpus[cpu as int].registered {
                law_picked_task_is_runnable(s.before_pick(cpu, sp, timer), cpu, 1);
            }
        },
        Step::Request { cpu, receiver, .. } => {
            assert(s.cpu_inv(cpu as int));
            lemma_found_is_live(s, receiver, 0);
        },
        Step::Take { cpu, .. } => {
            assert(s.cpu_inv(cpu as int));
        },
        Step::Reply { cpu, to, .. } => {
            assert(s.cpu_inv(cpu as int));
            lemma_found_is_live(s, to, 0);
        },
        Step::Poll { cpu } => {
            assert(s.cpu_inv(cpu as int));
        },
        Step::Sleep { cpu, .. } => {
            assert(s.cpu_inv(cpu as int));
        },
        Step::Exit { cpu } => {
            assert(s.cpu_inv(cpu as int));
            assert forall|j: int| 0 <= j < s.tasks.len() implies #[trigger] post.tasks[j].id
                == s.tasks[j].id by {
                assert(s.exited(cpu).task_aborted(s.current_id(cpu), post.tasks[j], j));
            }
        },
        _ => {},
    }
    assert forall|j: int| 0 <= j < s.tasks.len() implies #[trigger] post.tasks[j].id == s.tasks[j].id by {
        assert(s.tasks[j].id < s.next_id);
    }
    assert forall|a: int, b: int| 0 <= a < b < post.tasks.len() implies #[trigger] post.tasks[a].id
        != #[trigger] post.tasks[b].id by {
        assert(s.tasks[a].id == post.tasks[a].id);
        assert(s.tasks[a].id < s.next_id);
        if b < s.tasks.len() {
            assert(s.tasks[b].id == post.tasks[b].id);
        }
    }
    assert forall|a: int| 0 <= a < post.tasks.len() implies (#[trigger] post.tasks[a]).id < post.next_id by {
        if a < s.tasks.len() {
            assert(s.tasks[a].id == post.tasks[a].id);
            assert(s.tasks[a].id < s.next_id);
        }
    }
}

/// As long as the counter has not wrapped, all IDs stay apart over a run, and
/// the ID of every live task finds it.
pub proof fn law_ids_stay_apart(states: Seq<SchedModel>, steps: Seq<Step>, n: int)
    requires
        history(states, steps),
        states[0].ids_unique(),
        states[0].ids_below_next(),
        forall|k: int| 0 <= k < steps.len() ==> (#[trigger] states[k]).next_id < u32::MAX,
        0 <= n < states.len(),
    ensures
        states[n].ids_unique(),
        states[n].ids_below_next(),
        forall|i: int|
            0 <= i < states[n].tasks.len() && (#[trigger] states[n].tasks[i]).state != TaskState::Exited
                ==> states[n].find_live(states[n].tasks[i].id) == Some(i),
    decreases n,
{
    if n > 0 {
        law_ids_stay_apart(states, steps, n - 1);
        assert(states[n - 1].inv());
        assert(leads_on(states, steps, n - 1));
        law_steps_keep_ids(states[n - 1], steps[n - 1], states[n]);
    }
    assert forall|i: int|
        0 <= i < states[n].tasks.len() && (#[trigger] states[n].tasks[i]).state
            != TaskState::Exited implies states[n].find_live(states[n].tasks[i].id) == Some(i) by {
        lemma_find_live(states[n], i, 0);
    }
}

/// A question stays unanswered over a run.
proof fn lemma_unanswered_lasts(
    states: Seq<SchedModel>,
    steps: Seq<Step>,
    from: int,
    n: int,
    i: int,
    id: u32,
)
    requires
        history(states, steps),
        0 <= from <= n < states.len(),
        0 <= i < states[from].tasks.len(),
        states[from].tasks[i].unanswered(id),
        forall|j: int|
            from <= j < n ==> !(#[trigger] states[j]).acts(steps[j], i) && !states[j].settles(
                steps[j],
                i,
                id,
            ),
    ensures
        i < states[n].tasks.len(),
        states[n].tasks[i].unanswered(id),
        states[n].tasks[i].id == states[from].tasks[i].id,
        states[n].tasks[i].priority == states[from].tasks[i].priority,
    decreases n,
{
    if from < n {
        lemma_unanswered_lasts(states, steps, from, n - 1, i, id);
        assert(states[n - 1].inv());
        assert(leads_on(states, steps, n - 1));
        law_only_an_answer_answers(states[n - 1], steps[n - 1], states[n], i, id);
    }
}

/// A delivered reply lies in its slot over a run.
proof fn lemma_reply_lasts(states: Seq<SchedModel>, steps: Seq<Step>, from: int, n: int, i: int)
    requires
        history(states, steps),
        0 <= from <= n < states.len(),
        0 <= i < states[from].tasks.len(),
        states[from].tasks[i].reply is Some,
        states[from].tasks[i].state == TaskState::Ready,
        forall|j: int|
            from <= j < n ==> !(#[trigger] states[j]).acts(steps[j], i) && !states[j].polls(
                steps[j],
                i,
            ),
    ensures
        i < states[n].tasks.len(),
        states[n].tasks[i].reply == states[from].tasks[i].reply,
        states[n].tasks[i].state == TaskState::Ready || states[n].tasks[i].state
            == TaskState::Running,
    decreases n,
{
    if from < n {
        lemma_reply_lasts(states, steps, from, n - 1, i);
        assert(states[n - 1].inv());
        assert(leads_on(states, steps, n - 1));
        law_delivered_reply_stays(states[n - 1], steps[n - 1], states[n], i);
    }
}

/// What became of a request that was sent in the first step of a run: its
/// sender is unanswered at the `k`th.
proof fn lemma_sent_then_unanswered(
    states: Seq<SchedModel>,
    steps: Seq<Step>,
    cpu: usize,
    receiver: u32,
    msg: Rqb,
    k: int,
)
    requires
        history(states, steps),
        1 <= k < steps.len(),
        steps[0] == (Step::Request { cpu, receiver, msg }),
        states[0].request_refused(cpu, receiver) is None,
        forall|j: int|
            1 <= j < k ==> !(#[trigger] states[j]).acts(steps[j], states[0].current(cpu))
                && !states[j].settles(steps[j], states[0].current(cpu), receiver),
    ensures
        ({
            let me = states[0].current(cpu);
            &&& 0 <= me < states[0].tasks.len()
            &&& me < states[k].tasks.len()
            &&& states[k].tasks[me].unanswered(receiver)
            &&& states[k].tasks[me].id == states[0].tasks[me].id
            &&& states[k].tasks[me].priority == states[0].tasks[me].priority
            &&& receiver != states[0].tasks[me].id
        }),
{
    let s = states[0];
    let me = s.current(cpu);
    assert(s.inv());
    assert(leads_on(states, steps, 0));
    assert(s.cpu_inv(cpu as int));
    lemma_found_is_live(s, receiver, 0);
    assert(states[1].tasks[me].awaits(receiver));
    lemma_unanswered_lasts(states, steps, 1, k, me, receiver);
}

/// Request and reply: a task that sends a request, which is accepted, stays
/// unanswered, whatever other tasks and the clock do, until the receiver
/// replies to it at step `k`. The receiver may take its time, and take other
/// messages before. Its reply is accepted, where the sender's ID finds the
/// sender and an idle sender is blocked at that moment. From then on, until
/// the sender asks for it, the reply is due to it on whatever CPU it runs: as
/// it was given in service, status and data, stamped with the IDs of receiver
/// and sender; and the sender can run.
pub proof fn law_request_reply_round_trip(
    states: Seq<SchedModel>,
    steps: Seq<Step>,
    cpu: usize,
    receiver: u32,
    msg: Rqb,
    k: int,
    other: usize,
    answer: Rqb,
)
    requires
        history(states, steps),
        1 <= k < steps.len(),
        steps[0] == (Step::Request { cpu, receiver, msg }),
        states[0].request_refused(cpu, receiver) is None,
        forall|j: int|
            1 <= j < k ==> !(#[trigger] states[j]).acts(steps[j], states[0].current(cpu))
                && !states[j].settles(steps[j], states[0].current(cpu), receiver),
        steps[k] == (Step::Reply { cpu: other, to: states[0].current_id(cpu), msg: answer }),
        states[k].current_id(other) == receiver,
        states[k].find_live(states[0].current_id(cpu)) == Some(states[0].current(cpu)),
        states[0].tasks[states[0].current(cpu)].priority == PRIORITY_IDLE
            ==> states[k].tasks[states[0].current(cpu)].state == TaskState::WaitingReply,
        forall|j: int|
            k < j < steps.len() ==> !(#[trigger] states[j]).acts(steps[j], states[0].current(cpu))
                && !states[j].polls(steps[j], states[0].current(cpu)),
    ensures
        ({
            let me = states[0].current(cpu);
            let my_id = states[0].current_id(cpu);
            let last = states[steps.len() as int];
            let reply = answer.stamped(receiver, my_id);
            &&& states[k].tasks[me].awaits(receiver)
            &&& states[k].reply_refused(other, my_id) is None
            &&& last.tasks[me].state == TaskState::Ready || last.tasks[me].state == TaskState::Running
            &&& last.tasks[me].reply == Some(reply)
            &&& forall|c: usize| #[trigger]
                last.running(c) && last.current(c) == me ==> last.reply_due(c) == Some(reply)
            &&& reply.service == answer.service
            &&& reply.status == answer.status
            &&& reply.data_size == answer.data_size
            &&& reply.data == answer.data
            &&& reply.sender_id == receiver
            &&& reply.receiver_id == my_id
        }),
{
    let me = states[0].current(cpu);
    lemma_sent_then_unanswered(states, steps, cpu, receiver, msg, k);
    assert(leads_on(states, steps, 0));
    assert(states[0].cpu_inv(cpu as int));
    assert(states[k].inv());
    assert(leads_on(states, steps, k));
    law_awaited_reply_is_accepted(states[k], other, me, answer);
    lemma_reply_lasts(states, steps, k + 1, steps.len() as int, me);
}

/// A request to a task that exits without answering fails: its sender stays
/// unanswered until the receiver exits at step `k`, and where it is blocked
/// then, as every sender but an idle task is, an Aborted reply with the IDs
/// of receiver and sender is due to it from then on, until it asks for it.
pub proof fn law_unanswered_request_is_aborted(
    states: Seq<SchedModel>,
    steps: Seq<Step>,
    cpu: usize,
    receiver: u32,
    msg: Rqb,
    k: int,
    other: usize,
)
    requires
        history(states, steps),
        1 <= k < steps.len(),
        steps[0] == (Step::Request { cpu, receiver, msg }),
        states[0].request_refused(cpu, receiver) is None,
        forall|j: int|
            1 <= j < k ==> !(#[trigger] states[j]).acts(steps[j], states[0].current(cpu))
                && !states[j].settles(steps[j], states[0].current(cpu), receiver),
        steps[k] == (Step::Exit { cpu: other }),
        states[k].current_id(other) == receiver,
        states[0].tasks[states[0].current(cpu)].priority == PRIORITY_IDLE
            ==> states[k].tasks[states[0].current(cpu)].state == TaskState::WaitingReply,
        forall|j: int|
            k < j < steps.len() ==> !(#[trigger] states[j]).acts(steps[j], states[0].current(cpu))
                && !states[j].polls(steps[j], states[0].current(cpu)),
    ensures
        ({
            let me = states[0].current(cpu);
            let last = states[steps.len() as int];
            &&& states[k].tasks[me].awaits(receiver)
            &&& last.tasks[me].state == TaskState::Ready || last.tasks[me].state == TaskState::Running
            &&& last.tasks[me].reply is Some
            &&& is_aborted_reply(last.tasks[me].reply->0, receiver, states[0].current_id(cpu))
            &&& status_of_code((last.tasks[me].reply->0).status) == RqbStatus::Aborted
            &&& forall|c: usize| #[trigger]
                last.running(c) && last.current(c) == me ==> last.reply_due(c) == last.tasks[me].reply
        }),
{
    let me = states[0].current(cpu);
    lemma_sent_then_unanswered(states, steps, cpu, receiver, msg, k);
    assert(leads_on(states, steps, 0));
    assert(states[0].cpu_inv(cpu as int));
    assert(states[k].inv());
    assert(leads_on(states, steps, k));
    assert(states[k].cpu_inv(other as int));
    // The receiver is not the sender: its ID is another.
    assert(states[k].current(other) != me);
    law_exit_strands_nobody(states[k], other, states[k + 1], me);
    lemma_reply_lasts(states, steps, k + 1, steps.len() as int, me);
}

/// A delivered reply is taken once: asking for it empties the slot of the task
/// and changes nothing else of it.
pub proof fn law_poll_takes_the_reply(s: SchedModel, cpu: usize)
    requires
        s.inv(),
        s.running(cpu),
        s.tasks[s.current(cpu)].reply is Some,
    ensures
        s.reply_taken(cpu).tasks[s.current(cpu)] == (TaskModel {
            reply: None,
            ..s.tasks[s.current(cpu)]
        }),
{
    assert(s.cpu_inv(cpu as int));
}

} // verus!
