//! SMP preemptive round-robin task scheduler with RQB message passing.
//!
//! Every online CPU runs the scheduler on its own timer tick. Tasks live in
//! one run queue; any CPU may pick up any unpinned Ready task, so tasks
//! migrate between cores. Each CPU has an idle task, its own boot or park
//! loop, to which it falls back when no normal-priority work is ready.
//!
//! The scheduler is one value. The kernel holds it behind a spinlock that is
//! only taken with interrupts disabled, and keeps the lock across a stack
//! switch, so that a saved context is not resumed while its stack is in use.

pub mod exchange;
pub mod step_laws;
pub mod laws;
pub mod model;
pub mod rqb;
pub mod task;

use vstd::prelude::*;
use crate::bits::lemma_wrap;
use crate::io::IoOp;
use model::{PerCpu, SchedModel, INBOX_CAPACITY, MAX_CPUS};
use rqb::{Rqb, RqbStatus};
use task::{TaskControlBlock, TaskModel, TaskPriority, TaskState, PRIORITY_IDLE};

verus! {

/// Default stack size for each task (32 KiB).
pub const TASK_STACK_SIZE: usize = 32 * 1024;

/// Number of tasks the system is planned for.
pub const MAX_TASKS: usize = 64;

/// Timer tick frequency per CPU (Hz).
pub const SCHEDULER_FREQUENCY_HZ: u32 = 100;

/// Software-interrupt vector a task uses to give up the CPU voluntarily.
pub const YIELD_VECTOR: u8 = 0x31;

/// The scheduler.
pub struct Scheduler {
    /// All registered tasks (run queue).
    tasks: Vec<TaskControlBlock>,
    /// Per-CPU scheduling state.
    cpus: [PerCpu; MAX_CPUS],
    /// Round-robin cursor.
    rr_cursor: usize,
    /// Number of ticks since scheduler start (all CPUs).
    tick_count: u64,
    /// System clock: ticks of CPU 0's timer since boot.
    jiffies: u64,
    /// ID of the next task.
    next_id: u32,
    /// Interrupt-controller ID to CPU index, by the low byte of the ID.
    apic_to_cpu: [u32; 256],
    /// Whether the boot CPU has registered.
    initialized: bool,
}

impl View for Scheduler {
    type V = SchedModel;

    closed spec fn view(&self) -> SchedModel {
        SchedModel {
            tasks: self.tasks@.map_values(|t: TaskControlBlock| t@),
            cpus: self.cpus@,
            rr_cursor: self.rr_cursor as int,
            tick_count: self.tick_count as int,
            jiffies: self.jiffies as int,
            next_id: self.next_id,
            apic_to_cpu: self.apic_to_cpu@,
            initialized: self.initialized,
        }
    }
}

impl Scheduler {
    /// A scheduler with no task and no CPU.
    pub fn new() -> (r: Self)
        ensures
            r@.inv(),
            r@ == (SchedModel {
                tasks: Seq::empty(),
                cpus: Seq::new(
                    MAX_CPUS as nat,
                    |i: int| (PerCpu { registered: false, apic_id: 0, current: None, idle_idx: 0 }),
                ),
                rr_cursor: 0,
                tick_count: 0,
                jiffies: 0,
                next_id: 1,
                apic_to_cpu: Seq::new(256, |i: int| 0u32),
                initialized: false,
            }),
    {
        Scheduler {
            tasks: Vec::new(),
            cpus: [PerCpu { registered: false, apic_id: 0, current: None, idle_idx: 0 }; 64],
            rr_cursor: 0,
            tick_count: 0,
            jiffies: 0,
            next_id: 1,
            apic_to_cpu: [0; 256],
            initialized: false,
        }
    }

    /// Index of the task running on `cpu`.
    fn current_idx(&self, cpu: usize) -> (r: usize)
        requires
            self@.inv(),
            self@.running(cpu),
        ensures
            r == self@.current(cpu),
            r < self@.tasks.len(),
            r < self.tasks@.len(),
            self@.current_id(cpu) == self@.tasks[r as int].id,
    {
        assert(self@.cpu_inv(cpu as int));
        self.cpus[cpu].current.unwrap()
    }

    /// Index of a live (not exited) task by ID.
    fn find_live(&self, tid: u32) -> (r: Option<usize>)
        ensures
            match r {
                Some(i) => self@.find_live(tid) == Some(i as int) && i < self@.tasks.len()
                    && self@.tasks[i as int].id == tid && self@.tasks[i as int].state
                    != TaskState::Exited,
                None => self@.find_live(tid) is None,
            },
    {
        let mut i: usize = 0;
        while i < self.tasks.len()
            invariant
                i <= self.tasks@.len(),
                self@.find_live(tid) == self@.live_from(tid, i as int),
            decreases self.tasks@.len() - i,
        {
            assert(self@.tasks[i as int] == self.tasks@[i as int]@);
            if self.tasks[i].id == tid && self.tasks[i].state != TaskState::Exited {
                return Some(i);
            }
            i += 1;
        }
        None
    }

    /// Find a CPU other than `exclude` that runs its idle task, for a
    /// reschedule IPI.
    fn find_idle_cpu(&self, exclude: usize) -> (r: Option<u32>)
        ensures
            r == self@.find_idle_cpu(exclude),
    {
        let mut i: usize = 0;
        while i < MAX_CPUS
            invariant
                i <= MAX_CPUS,
                self@.idle_cpus(exclude) == self@.idle_cpus_from(exclude, i as int),
            decreases MAX_CPUS - i,
        {
            let c = self.cpus[i];
            if c.registered && i != exclude {
                if let Some(k) = c.current {
                    if k == c.idle_idx {
                        return Some(c.apic_id);
                    }
                }
            }
            i += 1;
        }
        None
    }

    /// Pick the next task for `cpu`.
    fn pick_next(&mut self, cpu: usize) -> (r: usize)
        requires
            old(self)@.tasks.len() > 0,
            old(self)@.tasks.len() < u32::MAX,
            0 <= old(self)@.rr_cursor < old(self)@.tasks.len(),
            cpu < MAX_CPUS,
        ensures
            final(self)@ == old(self)@.picked(cpu),
            r == old(self)@.next_for(cpu),
    {
        let n: usize = self.tasks.len();
        let mut offset: usize = 1;
        while offset <= n
            invariant
                1 <= offset <= n + 1,
                n == self.tasks@.len(),
                n < u32::MAX,
                self.rr_cursor < n,
                *self == *old(self),
                self@.in_turn(cpu) == self@.eligible_from(cpu, offset as int),
            decreases n + 1 - offset,
        {
            let room: usize = n - self.rr_cursor;
            let idx: usize = if offset < room { self.rr_cursor + offset } else { offset - room };
            proof {
                lemma_wrap(self.rr_cursor + offset, n as int);
            }
            assert(idx == self@.at_offset(offset as int));
            assert(self@.tasks[idx as int] == self.tasks@[idx as int]@);
            let t = &self.tasks[idx];
            let free = t.state == TaskState::Ready && t.on_cpu.is_none() && t.priority != PRIORITY_IDLE;
            let here = match t.pinned_cpu {
                Some(p) => p as usize == cpu,
                None => true,
            };
            if free && here {
                self.rr_cursor = idx;
                return idx;
            }
            offset += 1;
        }
        self.cpus[cpu].idle_idx
    }

    /// Called on each timer tick, reschedule IPI or voluntary yield on `cpu`,
    /// with the stack pointer under which the interrupted context is saved.
    ///
    /// Returns the stack pointer of the task to resume, and the CPUs to send
    /// a reschedule IPI: this CPU takes one of the sleepers that wake up, and
    /// idle CPUs are told of the rest.
    pub fn on_tick(&mut self, cpu: usize, current_rsp: u64, timer: bool, apic: bool) -> (r: (
        u64,
        Vec<u32>,
    ))
        requires
            old(self)@.inv(),
            cpu < MAX_CPUS,
            timer ==> old(self)@.tick_count < u64::MAX,
        ensures
            final(self)@.inv(),
            final(self)@ == old(self)@.after_tick(cpu, current_rsp, timer),
            ({
                let s = old(self)@;
                let b = s.before_pick(cpu, current_rsp, timer);
                if s.cpus[cpu as int].registered {
                    &&& r.0 == b.tasks[b.next_for(cpu)].context_ptr
                    &&& r.1@ == s.ticked(cpu, timer).kicks(cpu, apic)
                } else {
                    r.0 == current_rsp && r.1@ == Seq::<u32>::empty()
                }
            }),
    {
        let mut ipis: Vec<u32> = Vec::new();
        if !self.cpus[cpu].registered || self.tasks.len() == 0 {
            assert(self@.cpu_inv(cpu as int));
            return (current_rsp, ipis);
        }
        let ghost s0 = self@;
        assert(s0.cpu_inv(cpu as int));
        if timer {
            self.tick_count = self.tick_count + 1;
            if cpu == 0 {
                self.jiffies = self.jiffies + 1;
            }
        }
        let ghost s1 = s0.ticked(cpu, timer);
        assert(self@ == s1);
        let now: u64 = self.jiffies;
        let mut woken: usize = 0;
        let mut i: usize = 0;
        while i < self.tasks.len()
            invariant
                i <= self.tasks@.len(),
                self.tasks@.len() < u32::MAX,
                now == s1.jiffies,
                woken <= i,
                s1.due_from(0) == woken + s1.due_from(i as int),
                self@ == (SchedModel { tasks: self@.tasks, ..s1 }),
                self@.tasks.len() == s1.tasks.len(),
                forall|k: int| 0 <= k < i ==> #[trigger] self@.tasks[k] == s1.woken().tasks[k],
                forall|k: int| i <= k < s1.tasks.len() ==> #[trigger] self@.tasks[k] == s1.tasks[k],
            decreases self.tasks@.len() - i,
        {
            let ghost before = self@;
            assert(before.tasks[i as int] == self.tasks@[i as int]@);
            if self.tasks[i].state == TaskState::Sleeping && self.tasks[i].wake_tick <= now {
                self.tasks[i].state = TaskState::Ready;
                woken += 1;
                assert(self@.tasks =~= before.tasks.update(i as int, s1.woken().tasks[i as int]));
            }
            i += 1;
        }
        let ghost s2 = s1.woken();
        assert(self@.tasks =~= s2.tasks);
        assert(self@ == s2);
        if woken > 1 && apic {
            let mut c: usize = 0;
            let mut left: usize = woken - 1;
            while c < MAX_CPUS && left > 0
                invariant
                    c <= MAX_CPUS,
                    cpu < MAX_CPUS,
                    self@ == s2,
                    s2.cpus == s1.cpus,
                    s1.cpus.len() == MAX_CPUS,
                    woken == s1.due_from(0),
                    ipis@.len() + left == woken - 1,
                    ipis@ + s1.idle_cpus_from(cpu, c as int) == s1.idle_cpus(cpu),
                decreases MAX_CPUS - c,
            {
                let p = self.cpus[c];
                assert(p == s1.cpus[c as int]);
                let ghost rest = s1.idle_cpus_from(cpu, c as int + 1);
                if p.registered && c != cpu {
                    if let Some(k) = p.current {
                        if k == p.idle_idx {
                            assert(ipis@.push(p.apic_id) + rest =~= ipis@ + (seq![p.apic_id] + rest));
                            ipis.push(p.apic_id);
                            left -= 1;
                        }
                    }
                }
                c += 1;
            }
            proof {
                let idle = s1.idle_cpus(cpu);
                if left > 0 {
                    assert(s1.idle_cpus_from(cpu, c as int) =~= Seq::<u32>::empty());
                    assert(ipis@ =~= idle);
                } else {
                    assert(ipis@ =~= idle.take(woken - 1));
                    if woken - 1 == idle.len() {
                        assert(idle.take(woken - 1) =~= idle);
                    }
                }
            }
        }
        assert(ipis@ == s1.kicks(cpu, apic));

        let cur: usize = self.cpus[cpu].current.unwrap();
        assert(s2.tasks[cur as int] == self.tasks@[cur as int]@);
        assert(s2.tasks[cur as int].total_ticks == s0.tasks[cur as int].total_ticks);
        self.tasks[cur].context_ptr = current_rsp;
        self.tasks[cur].on_cpu = None;
        if timer {
            self.tasks[cur].total_ticks = self.tasks[cur].total_ticks + 1;
        }
        if self.tasks[cur].state == TaskState::Running {
            self.tasks[cur].state = TaskState::Ready;
        }
        let ghost s3 = s2.saved(cpu, current_rsp, timer);
        assert(self@.tasks =~= s3.tasks);
        assert(self@ == s3);

        let next: usize = self.pick_next(cpu);
        let ghost s4 = s3.picked(cpu);
        proof {
            lemma_next_in_range(s3, cpu, 1);
            lemma_tick_keeps_inv(s0, cpu, current_rsp, timer);
        }
        assert(s4.tasks[next as int] == self.tasks@[next as int]@);
        self.tasks[next].state = TaskState::Running;
        self.tasks[next].on_cpu = Some(cpu as u8);
        let sp: u64 = self.tasks[next].context_ptr;
        let mut p = self.cpus[cpu];
        p.current = Some(next);
        self.cpus[cpu] = p;
        assert(self@.tasks =~= s4.dispatched(cpu, next as int).tasks);
        assert(self@ == s4.dispatched(cpu, next as int));
        (sp, ipis)
    }

    /// Task ID of the task running on `cpu`, 0 where there is none.
    fn current_id(&self, cpu: usize) -> (r: u32)
        requires
            self@.inv(),
            cpu < MAX_CPUS,
        ensures
            r == self@.current_id(cpu),
    {
        assert(self@.cpu_inv(cpu as int));
        match self.cpus[cpu].current {
            Some(idx) => {
                assert(self@.tasks[idx as int] == self.tasks@[idx as int]@);
                self.tasks[idx].id
            },
            None => 0,
        }
    }

    /// If task `idx` is in `from`, make it Ready, and return an idle CPU to
    /// kick so that the wakeup is serviced promptly.
    fn make_ready(&mut self, idx: usize, from: TaskState, cpu: usize) -> (r: Option<u32>)
        requires
            idx < old(self)@.tasks.len(),
        ensures
            final(self)@ == old(self)@.made_ready(idx as int, from),
            r == if old(self)@.tasks[idx as int].state == from {
                old(self)@.find_idle_cpu(cpu)
            } else {
                None
            },
    {
        let ghost s0 = self@;
        assert(s0.tasks[idx as int] == self.tasks@[idx as int]@);
        if self.tasks[idx].state == from {
            self.tasks[idx].state = TaskState::Ready;
            assert(self@.tasks =~= s0.made_ready(idx as int, from).tasks);
            proof {
                lemma_idle_same(s0, self@, cpu, 0);
            }
            self.find_idle_cpu(cpu)
        } else {
            None
        }
    }

    /// Queue `msg` for `receiver` and block the caller in WaitingReply.
    /// Returns a CPU to kick if the receiver was woken.
    fn post_request(&mut self, cpu: usize, receiver: u32, msg: &Rqb) -> (r: Result<
        Option<u32>,
        RqbStatus,
    >)
        requires
            old(self)@.inv(),
            old(self)@.running(cpu),
        ensures
            final(self)@.inv(),
            ({
                let s = old(self)@;
                match s.request_refused(cpu, receiver) {
                    Some(e) => r == Err::<Option<u32>, RqbStatus>(e) && final(self)@ == s,
                    None => {
                        &&& final(self)@ == s.request_posted(cpu, receiver, *msg)
                        &&& r == Ok::<Option<u32>, RqbStatus>(
                            if s.tasks[s.find_live(receiver)->0].state == TaskState::WaitingRqb {
                                s.find_idle_cpu(cpu)
                            } else {
                                None
                            },
                        )
                    },
                }
            }),
    {
        let ghost s0 = self@;
        let me: usize = self.current_idx(cpu);
        assert(s0.tasks[me as int] == self.tasks@[me as int]@);
        let my_id: u32 = self.tasks[me].id;
        if receiver == my_id {
            return Err(RqbStatus::InvalidParam);
        }
        let ri: usize = match self.find_live(receiver) {
            Some(i) => i,
            None => {
                return Err(RqbStatus::NotFound);
            },
        };
        assert(s0.tasks[ri as int] == self.tasks@[ri as int]@);
        if self.tasks[ri].inbox.len() >= INBOX_CAPACITY {
            return Err(RqbStatus::Busy);
        }
        let mut m: Rqb = *msg;
        m.sender_id = my_id;
        m.receiver_id = receiver;
        self.tasks[ri].inbox.push_back(m);
        let ghost s1 = self@;
        assert(s1.tasks =~= s0.tasks.update(
            ri as int,
            TaskModel {
                inbox: s0.tasks[ri as int].inbox.push(msg.stamped(my_id, receiver)),
                ..s0.tasks[ri as int]
            },
        ));
        self.tasks[me].state = TaskState::WaitingReply;
        self.tasks[me].wait_for = receiver;
        self.tasks[me].reply = None;
        let ghost s2 = self@;
        assert(s2.tasks =~= s1.tasks.update(
            me as int,
            TaskModel {
                state: TaskState::WaitingReply,
                wait_for: receiver,
                reply: None,
                ..s1.tasks[me as int]
            },
        ));
        proof {
            lemma_idle_same(s0, s2, cpu, 0);
        }
        let k = self.make_ready(ri, TaskState::WaitingRqb, cpu);
        proof {
            lemma_task_update_keeps_inv(s0, self@);
        }
        Ok(k)
    }

    /// Pop a pending request of the task on `cpu`; where there is none, mark
    /// the task WaitingRqb if it is to block.
    fn take_request(&mut self, cpu: usize, block: bool) -> (r: Option<Rqb>)
        requires
            old(self)@.inv(),
            old(self)@.running(cpu),
        ensures
            final(self)@.inv(),
            final(self)@ == old(self)@.request_taken(cpu, block),
            ({
                let inbox = old(self)@.tasks[old(self)@.current(cpu)].inbox;
                r == if inbox.len() > 0 { Some(inbox[0]) } else { None }
            }),
    {
        let ghost s0 = self@;
        let me: usize = self.current_idx(cpu);
        assert(s0.tasks[me as int] == self.tasks@[me as int]@);
        assert(s0.tasks[me as int].inv());
        let got = self.tasks[me].inbox.pop_front();
        if got.is_none() && block {
            self.tasks[me].state = TaskState::WaitingRqb;
        }
        assert(self@.tasks =~= s0.request_taken(cpu, block).tasks) by {
            assert(self@.tasks[me as int] =~= s0.request_taken(cpu, block).tasks[me as int]);
        }
        proof {
            lemma_task_update_keeps_inv(s0, self@);
        }
        got
    }

    /// Deliver a reply to `sender`, which must be blocked waiting on the task
    /// on `cpu`.
    fn post_reply(&mut self, cpu: usize, sender: u32, msg: &Rqb) -> (r: Result<
        Option<u32>,
        RqbStatus,
    >)
        requires
            old(self)@.inv(),
            old(self)@.running(cpu),
        ensures
            final(self)@.inv(),
            match old(self)@.reply_refused(cpu, sender) {
                Some(e) => r == Err::<Option<u32>, RqbStatus>(e) && final(self)@ == old(self)@,
                None => {
                    &&& final(self)@ == old(self)@.reply_posted(cpu, sender, *msg)
                    &&& r == Ok::<Option<u32>, RqbStatus>(old(self)@.find_idle_cpu(cpu))
                },
            },
    {
        let ghost s0 = self@;
        let me: usize = self.current_idx(cpu);
        assert(s0.tasks[me as int] == self.tasks@[me as int]@);
        let my_id: u32 = self.tasks[me].id;
        let si: usize = match self.find_live(sender) {
            Some(i) => i,
            None => {
                return Err(RqbStatus::NotFound);
            },
        };
        assert(s0.tasks[si as int] == self.tasks@[si as int]@);
        if self.tasks[si].state != TaskState::WaitingReply || self.tasks[si].wait_for != my_id
            || self.tasks[si].reply.is_some() {
            return Err(RqbStatus::InvalidParam);
        }
        let mut m: Rqb = *msg;
        m.sender_id = my_id;
        m.receiver_id = sender;
        self.tasks[si].reply = Some(m);
        let ghost s1 = self@;
        assert(s1.tasks =~= s0.tasks.update(
            si as int,
            TaskModel { reply: Some(msg.stamped(my_id, sender)), ..s0.tasks[si as int] },
        ));
        proof {
            lemma_idle_same(s0, s1, cpu, 0);
        }
        let k = self.make_ready(si, TaskState::WaitingReply, cpu);
        proof {
            assert(self@.tasks =~= s0.reply_posted(cpu, sender, *msg).tasks);
            lemma_task_update_keeps_inv(s0, self@);
        }
        Ok(k)
    }

    /// Take the reply of the task on `cpu`; where there is none the task
    /// blocks again.
    fn take_reply(&mut self, cpu: usize) -> (r: Option<Rqb>)
        requires
            old(self)@.inv(),
            old(self)@.running(cpu),
        ensures
            final(self)@.inv(),
            final(self)@ == old(self)@.reply_taken(cpu),
            r == old(self)@.reply_due(cpu),
    {
        let ghost s0 = self@;
        let me: usize = self.current_idx(cpu);
        assert(s0.tasks[me as int] == self.tasks@[me as int]@);
        assert(s0.tasks[me as int].inv());
        let r = self.tasks[me].reply.take();
        if r.is_none() {
            self.tasks[me].state = TaskState::WaitingReply;
        }
        assert(self@.tasks =~= s0.reply_taken(cpu).tasks);
        proof {
            lemma_task_update_keeps_inv(s0, self@);
        }
        r
    }

    /// Mark the task on `cpu` as exited, and fail every request that can no
    /// longer be answered: senders blocked on the task (queued or already
    /// received) get an Aborted reply instead of hanging.
    fn mark_exited(&mut self, cpu: usize) -> (r: Option<u32>)
        requires
            old(self)@.inv(),
            old(self)@.running(cpu),
        ensures
            final(self)@.inv(),
            ({
                let s = old(self)@;
                let id = s.current_id(cpu);
                &&& s.exited(cpu).aborted(id, final(self)@)
                &&& r == if s.exited(cpu).awaited(id) { s.find_idle_cpu(cpu) } else { None }
            }),
    {
        let ghost s0 = self@;
        let me: usize = self.current_idx(cpu);
        assert(s0.tasks[me as int] == self.tasks@[me as int]@);
        let my_id: u32 = self.tasks[me].id;
        self.tasks[me].state = TaskState::Exited;
        self.tasks[me].inbox.clear();
        let ghost s1 = self@;
        assert(s1.tasks =~= s0.exited(cpu).tasks);
        assert(s1 == s0.exited(cpu));
        proof {
            lemma_idle_same(s0, s1, cpu, 0);
        }
        let mut kick: Option<u32> = None;
        let mut i: usize = 0;
        while i < self.tasks.len()
            invariant
                i <= self.tasks@.len(),
                self@ == (SchedModel { tasks: self@.tasks, ..s1 }),
                self@.tasks.len() == s1.tasks.len(),
                s1.idle_cpus(cpu) == s0.idle_cpus(cpu),
                forall|k: int|
                    0 <= k < i ==> s1.task_aborted(my_id, #[trigger] self@.tasks[k], k),
                forall|k: int| i <= k < s1.tasks.len() ==> #[trigger] self@.tasks[k] == s1.tasks[k],
                kick == if (exists|k: int| 0 <= k < i && (#[trigger] s1.tasks[k]).awaits(my_id)) {
                    s0.find_idle_cpu(cpu)
                } else {
                    None
                },
            decreases self.tasks@.len() - i,
        {
            let ghost before = self@;
            assert(before.tasks[i as int] == self.tasks@[i as int]@);
            if self.tasks[i].state == TaskState::WaitingReply && self.tasks[i].wait_for == my_id
                && self.tasks[i].reply.is_none() {
                let mut r = Rqb::new();
                r.set_status(RqbStatus::Aborted);
                r.sender_id = my_id;
                r.receiver_id = self.tasks[i].id;
                self.tasks[i].reply = Some(r);
                let ghost mid = self@;
                assert(mid.tasks =~= before.tasks.update(
                    i as int,
                    TaskModel { reply: Some(r), ..before.tasks[i as int] },
                ));
                proof {
                    lemma_idle_same(s1, mid, cpu, 0);
                }
                let k = self.make_ready(i, TaskState::WaitingReply, cpu);
                if kick.is_none() {
                    kick = k;
                }
                assert(self@.tasks =~= before.tasks.update(
                    i as int,
                    TaskModel { reply: Some(r), state: TaskState::Ready, ..before.tasks[i as int] },
                ));
                assert(s1.task_aborted(my_id, self@.tasks[i as int], i as int));
                assert(s1.tasks[i as int].awaits(my_id));
            } else {
                assert(s1.task_aborted(my_id, self@.tasks[i as int], i as int));
                assert(!s1.tasks[i as int].awaits(my_id));
            }
            i += 1;
        }
        proof {
            assert forall|k: int| 0 <= k < s0.tasks.len() implies
                task_step_ok(#[trigger] s0.tasks[k], self@.tasks[k]) by {
                assert(s1.task_aborted(my_id, self@.tasks[k], k));
                assert(s0.tasks[k].inv());
            }
            lemma_task_update_keeps_inv(s0, self@);
        }
        kick
    }

    /// Put the task on `cpu` to sleep until jiffy `until`.
    fn sleep_until(&mut self, cpu: usize, until: u64)
        requires
            old(self)@.inv(),
            old(self)@.running(cpu),
        ensures
            final(self)@.inv(),
            final(self)@ == old(self)@.sleeping(cpu, until),
    {
        let ghost s0 = self@;
        let me: usize = self.current_idx(cpu);
        assert(s0.tasks[me as int] == self.tasks@[me as int]@);
        assert(s0.tasks[me as int].inv());
        self.tasks[me].wake_tick = until;
        self.tasks[me].state = TaskState::Sleeping;
        assert(self@.tasks =~= s0.sleeping(cpu, until).tasks);
        proof {
            lemma_task_update_keeps_inv(s0, self@);
        }
    }

    /// The ID of the next task.
    fn next_task_id(&mut self) -> (r: u32)
        ensures
            r == old(self)@.next_id,
            old(self)@.inv() ==> final(self)@.inv(),
            final(self)@ == (SchedModel {
                next_id: if old(self)@.next_id == u32::MAX { 0 } else { (old(self)@.next_id + 1) as u32 },
                ..old(self)@
            }),
    {
        let ghost s0 = self@;
        let id: u32 = self.next_id;
        self.next_id = if id == u32::MAX { 0 } else { id + 1 };
        proof {
            if s0.inv() {
                lemma_inv_same(s0, self@);
            }
        }
        id
    }

    /// Register a CPU, adopting its current execution context (the boot or
    /// park loop) as its pinned idle task.
    fn register_cpu(&mut self, cpu: usize, apic_id: u32) -> (r: u32)
        requires
            old(self)@.inv(),
            old(self)@.tasks.len() + 1 < u32::MAX,
            cpu < MAX_CPUS,
        ensures
            final(self)@.inv(),
            final(self)@ == old(self)@.cpu_registered(cpu, apic_id),
            r == old(self)@.next_id,
    {
        let ghost s0 = self@;
        let id: u32 = self.next_task_id();
        let idle = TaskControlBlock::adopt_current(id, "idle", PRIORITY_IDLE, cpu as u8);
        self.tasks.push(idle);
        let idx: usize = self.tasks.len() - 1;
        self.cpus[cpu] = PerCpu { registered: true, apic_id, current: Some(idx), idle_idx: idx };
        proof {
            let post = s0.cpu_registered(cpu, apic_id);
            assert(self@.tasks =~= post.tasks);
            assert(self@ == post);
            assert forall|c: int| 0 <= c < MAX_CPUS implies #[trigger] post.cpu_inv(c) by {
                assert(s0.cpu_inv(c));
            }
            assert forall|i: int| 0 <= i < post.tasks.len() implies (#[trigger] post.tasks[i]).inv() by {
                if i < s0.tasks.len() {
                    assert(s0.tasks[i].inv());
                }
            }
        }
        id
    }

    /// Add a prepared task to the run queue.
    fn add_task(&mut self, task: TaskControlBlock) -> (r: u32)
        requires
            old(self)@.inv(),
            old(self)@.tasks.len() + 1 < u32::MAX,
            task@.inv(),
            task@.total_ticks == 0,
        ensures
            final(self)@.inv(),
            final(self)@ == (SchedModel { tasks: old(self)@.tasks.push(task@), ..old(self)@ }),
            r == task@.id,
    {
        let ghost s0 = self@;
        let tid: u32 = task.id;
        self.tasks.push(task);
        proof {
            let post = SchedModel { tasks: s0.tasks.push(task@), ..s0 };
            assert(self@.tasks =~= post.tasks);
            assert forall|c: int| 0 <= c < MAX_CPUS implies #[trigger] post.cpu_inv(c) by {
                assert(s0.cpu_inv(c));
            }
            assert forall|i: int| 0 <= i < post.tasks.len() implies (#[trigger] post.tasks[i]).inv() by {
                if i < s0.tasks.len() {
                    assert(s0.tasks[i].inv());
                }
            }
        }
        tid
    }

    /// Note that `apic_id` belongs to `cpu`.
    fn map_apic(&mut self, cpu: usize, apic_id: u32)
        requires
            old(self)@.inv(),
            cpu < MAX_CPUS,
        ensures
            final(self)@.inv(),
            final(self)@ == old(self)@.mapped(cpu, apic_id),
    {
        let ghost s0 = self@;
        let slot: usize = (apic_id % 256) as usize;
        self.apic_to_cpu[slot] = cpu as u32;
        proof {
            assert(self@.tasks =~= s0.tasks);
            assert forall|c: int| 0 <= c < MAX_CPUS implies #[trigger] self@.cpu_inv(c) by {
                assert(s0.cpu_inv(c));
            }
        }
    }
}

/// Idleness of CPUs does not depend on what the tasks hold.
proof fn lemma_idle_same(a: SchedModel, b: SchedModel, exclude: usize, i: int)
    requires
        a.cpus == b.cpus,
    ensures
        a.idle_cpus_from(exclude, i) == b.idle_cpus_from(exclude, i),
    decreases a.cpus.len() - i,
{
    if 0 <= i < a.cpus.len() {
        lemma_idle_same(a, b, exclude, i + 1);
    }
}

/// The invariant is not about the ID counter or the start-up flag.
proof fn lemma_inv_same(a: SchedModel, b: SchedModel)
    requires
        a.inv(),
        b == (SchedModel { next_id: b.next_id, initialized: b.initialized, ..a }),
    ensures
        b.inv(),
{
    assert forall|c: int| 0 <= c < MAX_CPUS implies #[trigger] b.cpu_inv(c) by {
        assert(a.cpu_inv(c));
    }
}

/// `b` is a task after an operation that moves no task between CPUs.
spec fn task_step_ok(a: TaskModel, b: TaskModel) -> bool {
    &&& b.inv()
    &&& b.on_cpu == a.on_cpu
    &&& b.pinned_cpu == a.pinned_cpu
    &&& b.priority == a.priority
    &&& b.total_ticks == a.total_ticks
}

/// An operation that moves no task between CPUs keeps the invariant.
proof fn lemma_task_update_keeps_inv(a: SchedModel, b: SchedModel)
    requires
        a.inv(),
        b == (SchedModel { tasks: b.tasks, ..a }),
        b.tasks.len() == a.tasks.len(),
        forall|i: int| 0 <= i < a.tasks.len() ==> task_step_ok(#[trigger] a.tasks[i], b.tasks[i]),
    ensures
        b.inv(),
{
    assert forall|c: int| 0 <= c < MAX_CPUS implies #[trigger] b.cpu_inv(c) by {
        assert(a.cpu_inv(c));
        if a.cpus[c].registered {
            let k = a.cpus[c].current->0 as int;
            let d = a.cpus[c].idle_idx as int;
            assert(task_step_ok(a.tasks[k], b.tasks[k]));
            assert(task_step_ok(a.tasks[d], b.tasks[d]));
        }
    }
    assert forall|i: int| 0 <= i < b.tasks.len() implies (#[trigger] b.tasks[i]).inv() by {
        assert(task_step_ok(a.tasks[i], b.tasks[i]));
    }
    assert forall|i: int| 0 <= i < b.tasks.len() implies (#[trigger] b.tasks[i]).total_ticks
        <= b.tick_count by {
        assert(task_step_ok(a.tasks[i], b.tasks[i]));
    }
}

/// The task found in turn exists and is eligible.
proof fn lemma_next_in_range(s: SchedModel, cpu: usize, offset: int)
    requires
        s.tasks.len() > 0,
        offset >= 0,
        s.rr_cursor >= 0,
    ensures
        match s.eligible_from(cpu, offset) {
            Some(i) => 0 <= i < s.tasks.len() && s.eligible(cpu, i),
            None => true,
        },
    decreases s.tasks.len() + 1 - offset,
{
    vstd::arithmetic::div_mod::lemma_mod_bound(s.rr_cursor + offset, s.tasks.len() as int);
    if offset <= s.tasks.len() && !s.eligible(cpu, s.at_offset(offset)) {
        lemma_next_in_range(s, cpu, offset + 1);
    }
}

/// A tick keeps the invariant.
proof fn lemma_tick_keeps_inv(s: SchedModel, cpu: usize, sp: u64, timer: bool)
    requires
        s.inv(),
        cpu < MAX_CPUS,
        timer ==> s.tick_count < u64::MAX,
    ensures
        s.after_tick(cpu, sp, timer).inv(),
        s.cpus[cpu as int].registered ==> s.before_pick(cpu, sp, timer).tasks.len() > 0,
        s.cpus[cpu as int].registered ==> 0 <= s.before_pick(cpu, sp, timer).next_for(cpu)
            < s.tasks.len(),
{
    if s.cpus[cpu as int].registered {
        let s1 = s.ticked(cpu, timer);
        let s2 = s1.woken();
        let s3 = s2.saved(cpu, sp, timer);
        let next = s3.next_for(cpu);
        let post = s.after_tick(cpu, sp, timer);
        assert(s.cpu_inv(cpu as int));
        lemma_next_in_range(s3, cpu, 1);
        assert forall|i: int| 0 <= i < s.tasks.len() implies (#[trigger] post.tasks[i]).inv() by {
            assert(s.tasks[i].inv());
        }
        assert forall|i: int| 0 <= i < s.tasks.len() implies (#[trigger] post.tasks[i]).total_ticks
            <= post.tick_count by {
            assert(s.tasks[i].total_ticks <= s.tick_count);
        }
        assert forall|c: int| 0 <= c < MAX_CPUS implies #[trigger] post.cpu_inv(c) by {
            assert(s.cpu_inv(c));
            if c != cpu && s.cpus[c].registered {
                let k = s.cpus[c].current->0 as int;
                assert(s.tasks[k].on_cpu == Some(c as u8));
                assert(k != s.current(cpu));
                assert(s3.tasks[k].on_cpu == Some(c as u8));
                if k == next {
                    // The idle task of this CPU is never on another one.
                    assert(s.tasks[next].inv());
                }
            }
        }
    }
}

/// How the tick source of the boot CPU is started.
#[derive(Debug, PartialEq, Eq)]
pub enum TickSource {
    /// The scheduler was initialized before; there is nothing to start.
    AlreadyRunning,
    /// The CPU's local timer, at `SCHEDULER_FREQUENCY_HZ`.
    LocalTimer,
    /// The programmable interval timer through the legacy controller.
    Legacy(Vec<IoOp>),
}

/// Current system time in ticks.
pub fn jiffies(s: &Scheduler) -> (r: u64)
    ensures
        r == s@.jiffies,
{
    s.jiffies
}

/// The CPU index of the processor with interrupt-controller ID `apic_id`;
/// without such a controller there is only the boot CPU.
pub fn current_cpu(s: &Scheduler, apic: bool, apic_id: u32) -> (r: usize)
    requires
        s@.inv(),
    ensures
        r < MAX_CPUS,
        r == if apic { s@.apic_to_cpu[(apic_id % 256) as int] as int } else { 0 },
{
    if !apic {
        return 0;
    }
    let slot: usize = (apic_id % 256) as usize;
    let cpu: u32 = s.apic_to_cpu[slot];
    assert(s@.apic_to_cpu[slot as int] < MAX_CPUS);
    cpu as usize
}

/// Reload value of the interval timer: 1.193182 MHz over the tick frequency.
pub const PIT_DIVISOR: u16 = 11931;

/// Programs the interval timer to fire at `SCHEDULER_FREQUENCY_HZ`: channel
/// 0, low byte then high byte, square wave.
pub fn init_pit() -> (r: Vec<IoOp>)
    ensures
        r@ == pit_ops(),
        PIT_DIVISOR as int == 1193182int / (SCHEDULER_FREQUENCY_HZ as int),
{
    let lo: u8 = (PIT_DIVISOR % 256) as u8;
    let hi: u8 = (PIT_DIVISOR / 256) as u8;
    let mut ops: Vec<IoOp> = Vec::new();
    ops.push(IoOp::Out8 { port: 0x43, value: 0x36 });
    ops.push(IoOp::Out8 { port: 0x40, value: lo });
    ops.push(IoOp::Out8 { port: 0x40, value: hi });
    ops
}

/// The writes that program the interval timer.
pub open spec fn pit_ops() -> Seq<IoOp> {
    seq![
        IoOp::Out8 { port: 0x43, value: 0x36 },
        IoOp::Out8 { port: 0x40, value: (PIT_DIVISOR % 256) as u8 },
        IoOp::Out8 { port: 0x40, value: (PIT_DIVISOR / 256) as u8 },
    ]
}

/// Initializes the scheduler on the boot CPU: registers CPU 0, adopting the
/// boot context as its idle task, and says how to start the tick source. A
/// second call changes nothing.
pub fn init(s: &mut Scheduler, apic: bool, apic_id: u32) -> (r: TickSource)
    requires
        old(s)@.inv(),
        old(s)@.tasks.len() + 1 < u32::MAX,
    ensures
        final(s)@.inv(),
        ({
            let id = if apic { apic_id } else { 0 };
            if old(s)@.initialized {
                final(s)@ == old(s)@ && r is AlreadyRunning
            } else {
                &&& final(s)@ == (SchedModel {
                    initialized: true,
                    ..old(s)@.cpu_registered(0, id).mapped(0, id)
                })
                &&& apic ==> r is LocalTimer
                &&& !apic ==> r is Legacy && r->Legacy_0@ == pit_ops().push(
                    IoOp::OutModify8 { port: 0x21, clear: 0x01, set: 0 },
                )
            }
        }),
{
    if s.initialized {
        return TickSource::AlreadyRunning;
    }
    let ghost s0 = s@;
    s.initialized = true;
    proof {
        lemma_inv_same(s0, s@);
    }
    let bsp_apic_id: u32 = if apic { apic_id } else { 0 };
    s.register_cpu(0, bsp_apic_id);
    s.map_apic(0, bsp_apic_id);
    if apic {
        TickSource::LocalTimer
    } else {
        let mut ops = init_pit();
        ops.push(IoOp::OutModify8 { port: 0x21, clear: 0x01, set: 0 });
        TickSource::Legacy(ops)
    }
}

/// Registers an application processor; its park loop becomes its idle task.
pub fn register_ap(s: &mut Scheduler, cpu: usize, apic_id: u32)
    requires
        old(s)@.inv(),
        old(s)@.tasks.len() + 1 < u32::MAX,
        cpu < MAX_CPUS,
    ensures
        final(s)@.inv(),
        final(s)@ == old(s)@.cpu_registered(cpu, apic_id).mapped(cpu, apic_id),
{
    s.register_cpu(cpu, apic_id);
    s.map_apic(cpu, apic_id);
}

/// The CPU to send a reschedule IPI, where the interrupt controller can.
pub fn kick(target: Option<u32>, apic: bool) -> (r: Option<u32>)
    ensures
        r == if apic { target } else { None },
{
    if apic {
        target
    } else {
        None
    }
}

/// Creates a kernel task on the stack of `stack_len` bytes at
/// `stack_bottom`. Returns its ID and an idle CPU to kick, so that the task
/// starts running at once.
pub fn create_task(
    s: &mut Scheduler,
    cpu: usize,
    stack_bottom: u64,
    stack_len: u64,
    frame_size: u64,
    priority: TaskPriority,
    name: &'static str,
    apic: bool,
) -> (r: (u32, Option<u32>))
    requires
        old(s)@.inv(),
        old(s)@.tasks.len() + 1 < u32::MAX,
        task::stack_holds_context(stack_bottom, stack_len, frame_size),
    ensures
        final(s)@.inv(),
        final(s)@ == old(s)@.added(
            task::fresh_task(
                old(s)@.next_id,
                stack_bottom,
                stack_len,
                frame_size,
                priority,
                name@,
                false,
            ),
        ),
        r.0 == old(s)@.next_id,
        r.1 == if apic { old(s)@.find_idle_cpu(cpu) } else { None },
{
    let ghost s0 = s@;
    let id: u32 = s.next_task_id();
    let task = TaskControlBlock::new(id, stack_bottom, stack_len, frame_size, priority, name);
    let tid: u32 = s.add_task(task);
    proof {
        lemma_idle_same(s0, s@, cpu, 0);
    }
    let target = s.find_idle_cpu(cpu);
    (tid, kick(target, apic))
}

/// Creates a user-mode task whose kernel stack is the given one.
pub fn create_user_task(
    s: &mut Scheduler,
    cpu: usize,
    stack_bottom: u64,
    stack_len: u64,
    frame_size: u64,
    priority: TaskPriority,
    name: &'static str,
    apic: bool,
) -> (r: (u32, Option<u32>))
    requires
        old(s)@.inv(),
        old(s)@.tasks.len() + 1 < u32::MAX,
        task::stack_holds_context(stack_bottom, stack_len, frame_size),
    ensures
        final(s)@.inv(),
        final(s)@ == old(s)@.added(
            task::fresh_task(
                old(s)@.next_id,
                stack_bottom,
                stack_len,
                frame_size,
                priority,
                name@,
                true,
            ),
        ),
        r.0 == old(s)@.next_id,
        r.1 == if apic { old(s)@.find_idle_cpu(cpu) } else { None },
{
    let ghost s0 = s@;
    let id: u32 = s.next_task_id();
    let task = TaskControlBlock::new_user(id, stack_bottom, stack_len, frame_size, priority, name);
    let tid: u32 = s.add_task(task);
    proof {
        lemma_idle_same(s0, s@, cpu, 0);
    }
    let target = s.find_idle_cpu(cpu);
    (tid, kick(target, apic))
}

/// Task ID of the task running on `cpu`, 0 where there is none.
pub fn current_task_id(s: &Scheduler, cpu: usize) -> (r: u32)
    requires
        s@.inv(),
        cpu < MAX_CPUS,
    ensures
        r == s@.current_id(cpu),
{
    s.current_id(cpu)
}

/// Name of the task running on `cpu`.
pub fn current_task_name(s: &Scheduler, cpu: usize) -> (r: &'static str)
    requires
        s@.inv(),
        s@.running(cpu),
    ensures
        r@ == s@.tasks[s@.current(cpu)].name,
{
    let me: usize = s.current_idx(cpu);
    assert(s@.tasks[me as int] == s.tasks@[me as int]@);
    s.tasks[me].name
}

/// Top of the kernel stack on which entries from user mode must land while
/// the task on `cpu` runs, where it is a user-mode task.
pub fn user_stack_top(s: &Scheduler, cpu: usize) -> (r: Option<u64>)
    requires
        s@.inv(),
        s@.running(cpu),
    ensures
        r == if s@.tasks[s@.current(cpu)].user {
            Some(s@.tasks[s@.current(cpu)].kernel_stack_top)
        } else {
            None
        },
{
    let me: usize = s.current_idx(cpu);
    assert(s@.tasks[me as int] == s.tasks@[me as int]@);
    if s.tasks[me].user {
        Some(s.tasks[me].kernel_stack_top)
    } else {
        None
    }
}

/// State of the first task with ID `tid`, if there is one.
pub fn task_state(s: &Scheduler, tid: u32) -> (r: Option<TaskState>)
    ensures
        match r {
            Some(st) => exists|i: int|
                0 <= i < s@.tasks.len() && (#[trigger] s@.tasks[i]).id == tid && s@.tasks[i].state == st
                    && forall|j: int| 0 <= j < i ==> (#[trigger] s@.tasks[j]).id != tid,
            None => forall|j: int| 0 <= j < s@.tasks.len() ==> (#[trigger] s@.tasks[j]).id != tid,
        },
{
    let mut i: usize = 0;
    while i < s.tasks.len()
        invariant
            i <= s.tasks@.len(),
            forall|j: int| 0 <= j < i ==> (#[trigger] s@.tasks[j]).id != tid,
        decreases s.tasks@.len() - i,
    {
        assert(s@.tasks[i as int] == s.tasks@[i as int]@);
        if s.tasks[i].id == tid {
            return Some(s.tasks[i].state);
        }
        i += 1;
    }
    None
}

/// Sends a request to `receiver` and blocks the task on `cpu` until the
/// reply.
///
/// `Ok` gives a CPU to kick: the caller yields, then asks `poll_reply` until
/// it has a status. A request that is not delivered leaves its error in
/// `rqb` and gives it back.
pub fn send_rqb(s: &mut Scheduler, cpu: usize, receiver: u32, rqb: &mut Rqb, apic: bool) -> (r: Result<
    Option<u32>,
    RqbStatus,
>)
    requires
        old(s)@.inv(),
        old(s)@.running(cpu),
    ensures
        final(s)@.inv(),
        match old(s)@.request_refused(cpu, receiver) {
            Some(e) => {
                &&& r == Err::<Option<u32>, RqbStatus>(e)
                &&& *final(rqb) == (Rqb { status: e.spec_code(), ..*old(rqb) })
                &&& final(s)@ == old(s)@
            },
            None => {
                &&& final(s)@ == old(s)@.request_posted(cpu, receiver, *old(rqb))
                &&& *final(rqb) == *old(rqb)
                &&& r == Ok::<Option<u32>, RqbStatus>(
                    if apic && old(s)@.tasks[old(s)@.find_live(receiver)->0].state
                        == TaskState::WaitingRqb {
                        old(s)@.find_idle_cpu(cpu)
                    } else {
                        None
                    },
                )
            },
        },
{
    match s.post_request(cpu, receiver, rqb) {
        Ok(target) => Ok(kick(target, apic)),
        Err(status) => {
            rqb.set_status(status);
            Err(status)
        },
    }
}

/// After a yield in `send_rqb`: the reply, if it is there. The task runs
/// again only once a reply or an Aborted notice is in its slot; otherwise it
/// blocks again.
pub fn poll_reply(s: &mut Scheduler, cpu: usize, rqb: &mut Rqb) -> (r: Option<RqbStatus>)
    requires
        old(s)@.inv(),
        old(s)@.running(cpu),
    ensures
        final(s)@.inv(),
        final(s)@ == old(s)@.reply_taken(cpu),
        match old(s)@.reply_due(cpu) {
            Some(m) => *final(rqb) == m && r == Some(rqb::status_of_code(m.status)),
            None => *final(rqb) == *old(rqb) && r is None,
        },
{
    match s.take_reply(cpu) {
        Some(m) => {
            *rqb = m;
            Some(RqbStatus::from(m.status))
        },
        None => None,
    }
}

/// The oldest pending request of the task on `cpu`, with `sender_id` the
/// task to reply to. Where there is none the task blocks: the caller yields
/// and asks again.
pub fn receive_rqb(s: &mut Scheduler, cpu: usize) -> (r: Option<Rqb>)
    requires
        old(s)@.inv(),
        old(s)@.running(cpu),
    ensures
        final(s)@.inv(),
        final(s)@ == old(s)@.request_taken(cpu, true),
        ({
            let inbox = old(s)@.tasks[old(s)@.current(cpu)].inbox;
            r == if inbox.len() > 0 { Some(inbox[0]) } else { None }
        }),
{
    s.take_request(cpu, true)
}

/// Non-blocking receive: the oldest pending request, if any.
pub fn try_receive_rqb(s: &mut Scheduler, cpu: usize) -> (r: Option<Rqb>)
    requires
        old(s)@.inv(),
        old(s)@.running(cpu),
    ensures
        final(s)@.inv(),
        final(s)@ == old(s)@.request_taken(cpu, false),
        ({
            let inbox = old(s)@.tasks[old(s)@.current(cpu)].inbox;
            r == if inbox.len() > 0 { Some(inbox[0]) } else { None }
        }),
{
    s.take_request(cpu, false)
}

/// Replies to a sender blocked on the task on `cpu`: NotFound if the sender
/// is gone, InvalidParam if it isn't awaiting our reply. Also gives a CPU to
/// kick.
pub fn reply_rqb(s: &mut Scheduler, cpu: usize, sender: u32, rqb: &Rqb, apic: bool) -> (r: (
    RqbStatus,
    Option<u32>,
))
    requires
        old(s)@.inv(),
        old(s)@.running(cpu),
    ensures
        final(s)@.inv(),
        match old(s)@.reply_refused(cpu, sender) {
            Some(e) => r == (e, None::<u32>) && final(s)@ == old(s)@,
            None => {
                &&& final(s)@ == old(s)@.reply_posted(cpu, sender, *rqb)
                &&& r.0 == RqbStatus::Success
                &&& r.1 == if apic { old(s)@.find_idle_cpu(cpu) } else { None }
            },
        },
{
    match s.post_reply(cpu, sender, rqb) {
        Ok(target) => (RqbStatus::Success, kick(target, apic)),
        Err(e) => (e, None),
    }
}

/// Marks the task on `cpu` as exited and fails the requests it still owes.
/// Gives a CPU to kick.
pub fn mark_current_exited(s: &mut Scheduler, cpu: usize, apic: bool) -> (r: Option<u32>)
    requires
        old(s)@.inv(),
        old(s)@.running(cpu),
    ensures
        final(s)@.inv(),
        old(s)@.exited(cpu).aborted(old(s)@.current_id(cpu), final(s)@),
        r == if apic && old(s)@.exited(cpu).awaited(old(s)@.current_id(cpu)) {
            old(s)@.find_idle_cpu(cpu)
        } else {
            None
        },
{
    let target = s.mark_exited(cpu);
    kick(target, apic)
}

/// Ends the task on `cpu`: it is marked as exited, whoever waits for it is
/// woken, and it is never picked again. Gives a CPU to kick.
pub fn exit_current(s: &mut Scheduler, cpu: usize, apic: bool) -> (r: Option<u32>)
    requires
        old(s)@.inv(),
        old(s)@.running(cpu),
    ensures
        final(s)@.inv(),
        old(s)@.exited(cpu).aborted(old(s)@.current_id(cpu), final(s)@),
        r == if apic && old(s)@.exited(cpu).awaited(old(s)@.current_id(cpu)) {
            old(s)@.find_idle_cpu(cpu)
        } else {
            None
        },
{
    mark_current_exited(s, cpu, apic)
}

/// Ticks that cover `ms` milliseconds, at least one.
pub open spec fn sleep_ticks(ms: u64) -> int {
    let t = (ms * SCHEDULER_FREQUENCY_HZ + 999) / 1000;
    if t < 1 {
        1
    } else {
        t
    }
}

/// The jiffy until which a sleep of `ms` milliseconds from now lasts.
pub fn sleep_deadline(s: &Scheduler, ms: u64) -> (until: u64)
    requires
        ms * SCHEDULER_FREQUENCY_HZ + 999 <= u64::MAX,
        s@.jiffies + sleep_ticks(ms) <= u64::MAX,
    ensures
        until == s@.jiffies + sleep_ticks(ms),
        (until - s@.jiffies) * 1000 >= ms * SCHEDULER_FREQUENCY_HZ,
        ms > 0 ==> (until - s@.jiffies - 1) * 1000 < ms * SCHEDULER_FREQUENCY_HZ,
        ms == 0 ==> until == s@.jiffies + 1,
        until > s@.jiffies,
{
    let ticks: u64 = (ms * SCHEDULER_FREQUENCY_HZ as u64 + 999) / 1000;
    s.jiffies + if ticks < 1 { 1 } else { ticks }
}

/// One round of a sleep until jiffy `until`: `true` if the task on `cpu` was
/// put to sleep and is to yield and ask again, `false` once the time is over.
pub fn sleep_ms(s: &mut Scheduler, cpu: usize, until: u64) -> (r: bool)
    requires
        old(s)@.inv(),
        old(s)@.running(cpu),
    ensures
        final(s)@.inv(),
        r == (old(s)@.jiffies < until),
        final(s)@ == if r { old(s)@.sleeping(cpu, until) } else { old(s)@ },
{
    if s.jiffies < until {
        s.sleep_until(cpu, until);
        true
    } else {
        false
    }
}

/// A sleep lasts the least number of ticks, of ten milliseconds each, that
/// cover the time, and at least one.
pub proof fn law_sleep_is_the_least_that_covers(ms: u64)
    ensures
        sleep_ticks(ms) >= 1,
        10 * sleep_ticks(ms) >= ms,
        ms > 0 ==> 10 * (sleep_ticks(ms) - 1) < ms,
        ms == 0 ==> sleep_ticks(ms) == 1,
{
}

/// A longer sleep does not end before a shorter one, and ten milliseconds more
/// are one tick more.
pub proof fn law_longer_sleeps_end_later(ms: u64, more: u64)
    requires
        ms <= more,
    ensures
        sleep_ticks(ms) <= sleep_ticks(more),
        ms > 0 && more == ms + 10 ==> sleep_ticks(more) == sleep_ticks(ms) + 1,
{
}

} // verus!
