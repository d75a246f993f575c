//! What the scheduler holds, and what its operations do to it.

use vstd::prelude::*;
use super::rqb::{Rqb, RqbStatus};
use super::task::{TaskModel, TaskState, PRIORITY_IDLE};

verus! {

/// Maximum number of CPUs the scheduler tracks.
pub const MAX_CPUS: usize = 64;

/// Maximum queued (unreceived) requests per task.
pub const INBOX_CAPACITY: usize = 32;

/// Scheduling state of one CPU.
#[derive(Clone, Copy)]
pub struct PerCpu {
    /// Whether this CPU has registered with the scheduler.
    pub registered: bool,
    /// This CPU's interrupt-controller ID, for sending it IPIs.
    pub apic_id: u32,
    /// Index of the task currently running on this CPU.
    pub current: Option<usize>,
    /// Index of this CPU's pinned idle task.
    pub idle_idx: usize,
}

/// What the scheduler holds.
#[verifier::ext_equal]
pub struct SchedModel {
    pub tasks: Seq<TaskModel>,
    pub cpus: Seq<PerCpu>,
    pub rr_cursor: int,
    pub tick_count: int,
    pub jiffies: int,
    pub next_id: u32,
    pub apic_to_cpu: Seq<u32>,
    pub initialized: bool,
}

/// The message a dead receiver leaves behind for a blocked sender.
pub open spec fn is_aborted_reply(r: Rqb, from: u32, to: u32) -> bool {
    &&& r.sender_id == from
    &&& r.receiver_id == to
    &&& r.status == RqbStatus::Aborted.spec_code()
    &&& (Rqb { sender_id: 0, receiver_id: 0, status: 0, ..r }).is_blank()
}

impl TaskModel {
    /// A sleeper whose deadline has passed.
    pub open spec fn due(self, now: int) -> bool {
        self.state == TaskState::Sleeping && self.wake_tick <= now
    }

    /// Blocked for an answer of task `id`, with none delivered.
    pub open spec fn awaits(self, id: u32) -> bool {
        self.state == TaskState::WaitingReply && self.wait_for == id && self.reply is None
    }

    /// What every task keeps between operations: a message is never left
    /// behind a task that waits for one, so no wakeup is lost.
    pub open spec fn inv(self) -> bool {
        &&& self.state == TaskState::WaitingRqb ==> self.inbox.len() == 0
        &&& self.state == TaskState::WaitingReply ==> self.reply is None
        &&& self.state == TaskState::Running ==> self.on_cpu is Some
        &&& self.inbox.len() <= INBOX_CAPACITY
        &&& self.pinned_cpu is Some && self.on_cpu is Some ==> self.pinned_cpu == self.on_cpu
    }
}

impl SchedModel {
    /// `cpu` runs a task that knows it, and has an idle task of its own.
    pub open spec fn cpu_inv(self, cpu: int) -> bool {
        let c = self.cpus[cpu];
        if c.registered {
            &&& c.current is Some
            &&& c.current->0 < self.tasks.len()
            &&& self.tasks[c.current->0 as int].on_cpu == Some(cpu as u8)
            &&& c.idle_idx < self.tasks.len()
            &&& self.tasks[c.idle_idx as int].pinned_cpu == Some(cpu as u8)
            &&& self.tasks[c.idle_idx as int].priority == PRIORITY_IDLE
        } else {
            c.current is None
        }
    }

    /// What every operation keeps.
    pub open spec fn inv(self) -> bool {
        &&& self.cpus.len() == MAX_CPUS
        &&& self.apic_to_cpu.len() == 256
        &&& forall|i: int| 0 <= i < 256 ==> #[trigger] self.apic_to_cpu[i] < MAX_CPUS
        &&& self.tasks.len() < u32::MAX
        &&& 0 <= self.rr_cursor
        &&& self.rr_cursor < self.tasks.len() || self.rr_cursor == 0
        &&& 0 <= self.jiffies <= self.tick_count <= u64::MAX
        &&& forall|i: int| 0 <= i < self.tasks.len() ==> (#[trigger] self.tasks[i]).inv()
        &&& forall|i: int|
            0 <= i < self.tasks.len() ==> (#[trigger] self.tasks[i]).total_ticks <= self.tick_count
        &&& forall|c: int| 0 <= c < MAX_CPUS ==> #[trigger] self.cpu_inv(c)
    }

    /// `cpu` exists and is running a task.
    pub open spec fn running(self, cpu: usize) -> bool {
        cpu < MAX_CPUS && self.cpus[cpu as int].registered
    }

    /// Index of the task running on `cpu`.
    pub open spec fn current(self, cpu: usize) -> int {
        self.cpus[cpu as int].current->0 as int
    }

    /// ID of the task running on `cpu`, 0 where there is none.
    pub open spec fn current_id(self, cpu: usize) -> u32 {
        match self.cpus[cpu as int].current {
            Some(idx) => self.tasks[idx as int].id,
            None => 0,
        }
    }

    pub open spec fn set_task(self, i: int, t: TaskModel) -> SchedModel {
        SchedModel { tasks: self.tasks.update(i, t), ..self }
    }

    /// Index of the first live task with ID `tid` at or after `i`.
    pub open spec fn live_from(self, tid: u32, i: int) -> Option<int>
        decreases self.tasks.len() - i,
    {
        if i < 0 || i >= self.tasks.len() {
            None
        } else if self.tasks[i].id == tid && self.tasks[i].state != TaskState::Exited {
            Some(i)
        } else {
            self.live_from(tid, i + 1)
        }
    }

    /// Index of the first live (not exited) task with ID `tid`.
    pub open spec fn find_live(self, tid: u32) -> Option<int> {
        self.live_from(tid, 0)
    }

    /// `cpu` is registered and runs its idle task.
    pub open spec fn idles(self, cpu: int) -> bool {
        let c = self.cpus[cpu];
        c.registered && c.current == Some(c.idle_idx)
    }

    /// IDs of the idling CPUs from `i` on, other than `exclude`, in order.
    pub open spec fn idle_cpus_from(self, exclude: usize, i: int) -> Seq<u32>
        decreases self.cpus.len() - i,
    {
        if i < 0 || i >= self.cpus.len() {
            Seq::empty()
        } else if self.idles(i) && i != exclude {
            seq![self.cpus[i].apic_id] + self.idle_cpus_from(exclude, i + 1)
        } else {
            self.idle_cpus_from(exclude, i + 1)
        }
    }

    /// IDs of all idling CPUs other than `exclude`, in order.
    pub open spec fn idle_cpus(self, exclude: usize) -> Seq<u32> {
        self.idle_cpus_from(exclude, 0)
    }

    /// The first idling CPU other than `exclude`.
    pub open spec fn find_idle_cpu(self, exclude: usize) -> Option<u32> {
        let idle = self.idle_cpus(exclude);
        if idle.len() > 0 {
            Some(idle[0])
        } else {
            None
        }
    }

    /// Task `i` may be picked for `cpu`: ready, not still executing on some
    /// CPU, no idle task, and not pinned elsewhere.
    pub open spec fn eligible(self, cpu: usize, i: int) -> bool {
        let t = self.tasks[i];
        &&& t.state == TaskState::Ready
        &&& t.on_cpu is None
        &&& t.priority != PRIORITY_IDLE
        &&& t.pinned_cpu is Some ==> t.pinned_cpu->0 as int == cpu as int
    }

    /// The task `offset` places after the round-robin cursor.
    pub open spec fn at_offset(self, offset: int) -> int {
        (self.rr_cursor + offset) % (self.tasks.len() as int)
    }

    /// The first eligible task at least `offset` places after the cursor, in
    /// at most one round.
    pub open spec fn eligible_from(self, cpu: usize, offset: int) -> Option<int>
        decreases self.tasks.len() + 1 - offset,
    {
        if offset > self.tasks.len() {
            None
        } else if self.eligible(cpu, self.at_offset(offset)) {
            Some(self.at_offset(offset))
        } else {
            self.eligible_from(cpu, offset + 1)
        }
    }

    /// The next task in turn for `cpu`, if any is eligible.
    pub open spec fn in_turn(self, cpu: usize) -> Option<int> {
        self.eligible_from(cpu, 1)
    }

    /// The task that `cpu` runs next: the next in turn, else its idle task.
    pub open spec fn next_for(self, cpu: usize) -> int {
        match self.in_turn(cpu) {
            Some(i) => i,
            None => self.cpus[cpu as int].idle_idx as int,
        }
    }

    /// The cursor moves to the task in turn and stays where none is.
    pub open spec fn picked(self, cpu: usize) -> SchedModel {
        match self.in_turn(cpu) {
            Some(i) => SchedModel { rr_cursor: i, ..self },
            None => self,
        }
    }

    /// A timer tick on `cpu`; CPU 0 drives the system clock.
    pub open spec fn ticked(self, cpu: usize, timer: bool) -> SchedModel {
        if timer {
            SchedModel {
                tick_count: self.tick_count + 1,
                jiffies: if cpu == 0 { self.jiffies + 1 } else { self.jiffies },
                ..self
            }
        } else {
            self
        }
    }

    /// Number of sleepers at or after `i` whose deadline has passed.
    pub open spec fn due_from(self, i: int) -> int
        decreases self.tasks.len() - i,
    {
        if i < 0 || i >= self.tasks.len() {
            0
        } else {
            (if self.tasks[i].due(self.jiffies) { 1int } else { 0int }) + self.due_from(i + 1)
        }
    }

    /// Every sleeper whose deadline has passed is Ready.
    pub open spec fn woken(self) -> SchedModel {
        SchedModel {
            tasks: self.tasks.map_values(
                |t: TaskModel| if t.due(self.jiffies) { TaskModel { state: TaskState::Ready, ..t } } else { t },
            ),
            ..self
        }
    }

    /// The idle CPUs that are told of the sleepers woken on a tick of `cpu`:
    /// one for each but the first, which `cpu` takes itself.
    pub open spec fn kicks(self, cpu: usize, apic: bool) -> Seq<u32> {
        let idle = self.idle_cpus(cpu);
        let spare = self.due_from(0) - 1;
        if !apic || spare <= 0 {
            Seq::empty()
        } else if spare < idle.len() {
            idle.take(spare)
        } else {
            idle
        }
    }

    /// The interrupted context is saved in the task that ran on `cpu`.
    pub open spec fn saved(self, cpu: usize, sp: u64, timer: bool) -> SchedModel {
        let t = self.tasks[self.current(cpu)];
        self.set_task(
            self.current(cpu),
            TaskModel {
                context_ptr: sp,
                on_cpu: None,
                total_ticks: if timer { (t.total_ticks + 1) as u64 } else { t.total_ticks },
                state: if t.state == TaskState::Running { TaskState::Ready } else { t.state },
                ..t
            },
        )
    }

    /// `cpu` runs task `next`.
    pub open spec fn dispatched(self, cpu: usize, next: int) -> SchedModel {
        let c = self.cpus[cpu as int];
        SchedModel {
            cpus: self.cpus.update(cpu as int, PerCpu { current: Some(next as usize), ..c }),
            ..self.set_task(
                next,
                TaskModel { state: TaskState::Running, on_cpu: Some(cpu as u8), ..self.tasks[next] },
            )
        }
    }

    /// The state from which the next task is picked on a tick of `cpu`.
    pub open spec fn before_pick(self, cpu: usize, sp: u64, timer: bool) -> SchedModel {
        self.ticked(cpu, timer).woken().saved(cpu, sp, timer)
    }

    /// The state after a tick, reschedule IPI or yield on `cpu`.
    pub open spec fn after_tick(self, cpu: usize, sp: u64, timer: bool) -> SchedModel {
        if self.cpus[cpu as int].registered {
            let b = self.before_pick(cpu, sp, timer);
            b.picked(cpu).dispatched(cpu, b.next_for(cpu))
        } else {
            self
        }
    }

    /// Task `i` goes from `from` to Ready; in any other state it stays.
    pub open spec fn made_ready(self, i: int, from: TaskState) -> SchedModel {
        if self.tasks[i].state == from {
            self.set_task(i, TaskModel { state: TaskState::Ready, ..self.tasks[i] })
        } else {
            self
        }
    }

    /// Why a request of the task on `cpu` to `receiver` is refused, if it is.
    pub open spec fn request_refused(self, cpu: usize, receiver: u32) -> Option<RqbStatus> {
        if receiver == self.current_id(cpu) {
            Some(RqbStatus::InvalidParam)
        } else if self.find_live(receiver) is None {
            Some(RqbStatus::NotFound)
        } else if self.tasks[self.find_live(receiver)->0].inbox.len() >= INBOX_CAPACITY {
            Some(RqbStatus::Busy)
        } else {
            None
        }
    }

    /// The request is queued, the sender blocked, a waiting receiver woken.
    pub open spec fn request_posted(self, cpu: usize, receiver: u32, msg: Rqb) -> SchedModel {
        let me = self.current(cpu);
        let ri = self.find_live(receiver)->0;
        let r = self.tasks[ri];
        let queued = self.set_task(
            ri,
            TaskModel { inbox: r.inbox.push(msg.stamped(self.tasks[me].id, receiver)), ..r },
        );
        let blocked = queued.set_task(
            me,
            TaskModel {
                state: TaskState::WaitingReply,
                wait_for: receiver,
                reply: None,
                ..queued.tasks[me]
            },
        );
        blocked.made_ready(ri, TaskState::WaitingRqb)
    }

    /// The oldest request leaves the inbox of the task on `cpu`; where there
    /// is none the task blocks, if it is to.
    pub open spec fn request_taken(self, cpu: usize, block: bool) -> SchedModel {
        let me = self.current(cpu);
        let t = self.tasks[me];
        if t.inbox.len() > 0 {
            self.set_task(me, TaskModel { inbox: t.inbox.drop_first(), ..t })
        } else if block {
            self.set_task(me, TaskModel { state: TaskState::WaitingRqb, ..t })
        } else {
            self
        }
    }

    /// Why a reply of the task on `cpu` to `sender` is refused, if it is.
    pub open spec fn reply_refused(self, cpu: usize, sender: u32) -> Option<RqbStatus> {
        if self.find_live(sender) is None {
            Some(RqbStatus::NotFound)
        } else if !self.tasks[self.find_live(sender)->0].awaits(self.current_id(cpu)) {
            Some(RqbStatus::InvalidParam)
        } else {
            None
        }
    }

    /// The reply lies in the sender's slot and the sender is Ready.
    pub open spec fn reply_posted(self, cpu: usize, sender: u32, msg: Rqb) -> SchedModel {
        let si = self.find_live(sender)->0;
        self.set_task(
            si,
            TaskModel {
                reply: Some(msg.stamped(self.current_id(cpu), sender)),
                state: TaskState::Ready,
                ..self.tasks[si]
            },
        )
    }

    /// The reply that lies ready for the task on `cpu`, if one does.
    pub open spec fn reply_due(self, cpu: usize) -> Option<Rqb> {
        self.tasks[self.current(cpu)].reply
    }

    /// The task on `cpu` takes its reply, or blocks again.
    pub open spec fn reply_taken(self, cpu: usize) -> SchedModel {
        let me = self.current(cpu);
        let t = self.tasks[me];
        if t.reply is Some {
            self.set_task(me, TaskModel { reply: None, ..t })
        } else {
            self.set_task(me, TaskModel { state: TaskState::WaitingReply, ..t })
        }
    }

    /// The task on `cpu` is Exited with nothing queued.
    pub open spec fn exited(self, cpu: usize) -> SchedModel {
        let me = self.current(cpu);
        self.set_task(
            me,
            TaskModel { state: TaskState::Exited, inbox: Seq::empty(), ..self.tasks[me] },
        )
    }

    /// From this state to `post`, every task that awaits an answer of task
    /// `id` has an Aborted reply and is Ready, and nothing else changes.
    pub open spec fn aborted(self, id: u32, post: SchedModel) -> bool {
        &&& post == (SchedModel { tasks: post.tasks, ..self })
        &&& post.tasks.len() == self.tasks.len()
        &&& forall|i: int|
            0 <= i < self.tasks.len() ==> self.task_aborted(id, #[trigger] post.tasks[i], i)
    }

    /// The part of `aborted` that is about task `i`.
    pub open spec fn task_aborted(self, id: u32, post: TaskModel, i: int) -> bool {
        let t = self.tasks[i];
        if t.awaits(id) {
            &&& post.reply is Some
            &&& is_aborted_reply(post.reply->0, id, t.id)
            &&& post == (TaskModel { reply: post.reply, state: TaskState::Ready, ..t })
        } else {
            post == t
        }
    }

    /// Some task awaits an answer of task `id`.
    pub open spec fn awaited(self, id: u32) -> bool {
        exists|i: int| 0 <= i < self.tasks.len() && (#[trigger] self.tasks[i]).awaits(id)
    }

    /// The task on `cpu` sleeps until jiffy `until`.
    pub open spec fn sleeping(self, cpu: usize, until: u64) -> SchedModel {
        let me = self.current(cpu);
        self.set_task(
            me,
            TaskModel { wake_tick: until, state: TaskState::Sleeping, ..self.tasks[me] },
        )
    }

    /// `task` is added under the next ID.
    pub open spec fn added(self, task: TaskModel) -> SchedModel {
        SchedModel {
            tasks: self.tasks.push(task),
            next_id: if self.next_id == u32::MAX { 0 } else { (self.next_id + 1) as u32 },
            ..self
        }
    }

    /// `cpu` is registered, its running context its idle task.
    pub open spec fn cpu_registered(self, cpu: usize, apic_id: u32) -> SchedModel {
        let n = self.tasks.len();
        let idle = super::task::adopted_task(self.next_id, "idle"@, PRIORITY_IDLE, cpu as u8);
        SchedModel {
            cpus: self.cpus.update(
                cpu as int,
                PerCpu { registered: true, apic_id, current: Some(n as usize), idle_idx: n as usize },
            ),
            ..self.added(idle)
        }
    }

    /// The interrupt-controller ID `apic_id` belongs to `cpu`.
    pub open spec fn mapped(self, cpu: usize, apic_id: u32) -> SchedModel {
        SchedModel {
            apic_to_cpu: self.apic_to_cpu.update((apic_id % 256) as int, cpu as u32),
            ..self
        }
    }
}

} // verus!
