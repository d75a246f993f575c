//! Task control block: per-task state.
//!
//! All tasks share the kernel's address space; each has its own kernel stack.
//! The scheduler switches between tasks by swapping the stack pointer, under
//! which the saved register context lies.

use vstd::prelude::*;
use vstd::string::StringSliceAdditionalSpecFns;
use vstd::utf8::encode_utf8;
use std::collections::VecDeque;
use crate::bits::{floor_to, lemma_mask_is_floor};
use crate::serial::{decimal, write_dec};
use super::rqb::Rqb;

verus! {

/// The state of a task in the scheduler.
#[derive(Debug, Clone, Copy, PartialEq, Eq, Structural)]
pub enum TaskState {
    /// Ready to run.
    Ready,
    /// Running.
    Running,
    /// Blocked in receive, waiting for a message to arrive.
    WaitingRqb,
    /// Waiting for an amount of time.
    Sleeping,
    /// Exited.
    Exited,
    /// Blocked on a resource.
    Blocked,
    /// Sent a request and blocked until the receiver replies.
    WaitingReply,
}

impl TaskState {
    /// Name of the state.
    pub open spec fn text(self) -> Seq<char> {
        match self {
            TaskState::Ready => "Ready"@,
            TaskState::Running => "Running"@,
            TaskState::WaitingRqb => "WaitingRqb"@,
            TaskState::Sleeping => "Sleeping"@,
            TaskState::Exited => "Exited"@,
            TaskState::Blocked => "Blocked"@,
            TaskState::WaitingReply => "WaitingReply"@,
        }
    }

    /// Name of the state.
    pub fn name(self) -> (r: &'static str)
        ensures
            r@ == self.text(),
    {
        match self {
            TaskState::Ready => "Ready",
            TaskState::Running => "Running",
            TaskState::WaitingRqb => "WaitingRqb",
            TaskState::Sleeping => "Sleeping",
            TaskState::Exited => "Exited",
            TaskState::Blocked => "Blocked",
            TaskState::WaitingReply => "WaitingReply",
        }
    }

    /// Whether a task in this state competes for a CPU.
    pub fn is_active(self) -> (r: bool)
        ensures
            r == (self == TaskState::Ready || self == TaskState::Running),
    {
        matches!(self, TaskState::Ready | TaskState::Running)
    }
}

/// Task priority (0 = highest, 31 = lowest, default = 16).
pub type TaskPriority = u8;

pub const PRIORITY_HIGHEST: TaskPriority = 0;

pub const PRIORITY_DEFAULT: TaskPriority = 16;

pub const PRIORITY_LOWEST: TaskPriority = 31;

pub const PRIORITY_IDLE: TaskPriority = 31;

/// A single execution context.
pub struct TaskControlBlock {
    /// Task ID.
    pub id: u32,
    /// Current state.
    pub state: TaskState,
    /// Priority (0 = highest, 31 = lowest).
    pub priority: TaskPriority,
    /// Address of the saved register context on the task's kernel stack.
    pub context_ptr: u64,
    /// Top of the task's kernel stack (highest address).
    pub kernel_stack_top: u64,
    /// Bottom of the task's kernel stack (lowest address).
    pub kernel_stack_bottom: u64,
    /// Name for debugging.
    pub name: &'static str,
    /// Total ticks the task has run.
    pub total_ticks: u64,
    /// If set, the task may only run on the given CPU.
    pub pinned_cpu: Option<u8>,
    /// CPU the task is executing on right now, or `None` when its context is
    /// saved. A task can be made Ready while it is still executing on the way
    /// into a yield; its stale saved context must not be resumed on another
    /// CPU until it has been switched out.
    pub on_cpu: Option<u8>,
    /// Pending requests sent to the task.
    pub inbox: VecDeque<Rqb>,
    /// Reply slot, filled by the receiver while we are in WaitingReply.
    pub reply: Option<Rqb>,
    /// Task ID we are blocked on while in WaitingReply.
    pub wait_for: u32,
    /// Jiffy at which a Sleeping task becomes Ready again.
    pub wake_tick: u64,
    /// Whether the task runs user code.
    pub user: bool,
}

/// What a task control block holds.
#[verifier::ext_equal]
pub struct TaskModel {
    pub id: u32,
    pub state: TaskState,
    pub priority: TaskPriority,
    pub context_ptr: u64,
    pub kernel_stack_top: u64,
    pub kernel_stack_bottom: u64,
    pub name: Seq<char>,
    pub total_ticks: u64,
    pub pinned_cpu: Option<u8>,
    pub on_cpu: Option<u8>,
    pub inbox: Seq<Rqb>,
    pub reply: Option<Rqb>,
    pub wait_for: u32,
    pub wake_tick: u64,
    pub user: bool,
}

impl View for TaskControlBlock {
    type V = TaskModel;

    open spec fn view(&self) -> TaskModel {
        TaskModel {
            id: self.id,
            state: self.state,
            priority: self.priority,
            context_ptr: self.context_ptr,
            kernel_stack_top: self.kernel_stack_top,
            kernel_stack_bottom: self.kernel_stack_bottom,
            name: self.name@,
            total_ticks: self.total_ticks,
            pinned_cpu: self.pinned_cpu,
            on_cpu: self.on_cpu,
            inbox: self.inbox@,
            reply: self.reply,
            wait_for: self.wait_for,
            wake_tick: self.wake_tick,
            user: self.user,
        }
    }
}

/// Address of the initial register context of `frame_size` bytes: as high as
/// it fits on the stack, aligned down to 16 bytes.
pub open spec fn initial_context_ptr(stack_bottom: u64, stack_len: u64, frame_size: u64) -> int {
    floor_to(stack_bottom + stack_len - frame_size, 16)
}

/// The stack ends inside the address space and holds an initial context.
pub open spec fn stack_holds_context(stack_bottom: u64, stack_len: u64, frame_size: u64) -> bool {
    &&& stack_bottom + stack_len <= u64::MAX
    &&& initial_context_ptr(stack_bottom, stack_len, frame_size) >= stack_bottom
}

/// A task that is ready for its first switch.
pub open spec fn fresh_task(
    id: u32,
    stack_bottom: u64,
    stack_len: u64,
    frame_size: u64,
    priority: TaskPriority,
    name: Seq<char>,
    user: bool,
) -> TaskModel {
    TaskModel {
        id,
        state: TaskState::Ready,
        priority,
        context_ptr: initial_context_ptr(stack_bottom, stack_len, frame_size) as u64,
        kernel_stack_top: (stack_bottom + stack_len) as u64,
        kernel_stack_bottom: stack_bottom,
        name,
        total_ticks: 0,
        pinned_cpu: None,
        on_cpu: None,
        inbox: Seq::empty(),
        reply: None,
        wait_for: 0,
        wake_tick: 0,
        user,
    }
}

/// The running context of `cpu` as a task pinned to it.
pub open spec fn adopted_task(id: u32, name: Seq<char>, priority: TaskPriority, cpu: u8) -> TaskModel {
    TaskModel {
        id,
        state: TaskState::Running,
        priority,
        context_ptr: 0,
        kernel_stack_top: 0,
        kernel_stack_bottom: 0,
        name,
        total_ticks: 0,
        pinned_cpu: Some(cpu),
        on_cpu: Some(cpu),
        inbox: Seq::empty(),
        reply: None,
        wait_for: 0,
        wake_tick: 0,
        user: false,
    }
}

impl TaskControlBlock {
    /// Creates a kernel task on the stack of `stack_len` bytes at
    /// `stack_bottom`.
    ///
    /// The initial context of `frame_size` bytes sits at the top of the
    /// stack, where a preempted task's saved context lives, with headroom
    /// below it for the frames that the switch path pushes. The caller writes
    /// the context to `context_ptr`.
    pub fn new(
        id: u32,
        stack_bottom: u64,
        stack_len: u64,
        frame_size: u64,
        priority: TaskPriority,
        name: &'static str,
    ) -> (r: Self)
        requires
            stack_holds_context(stack_bottom, stack_len, frame_size),
        ensures
            r@ == fresh_task(id, stack_bottom, stack_len, frame_size, priority, name@, false),
    {
        let stack_top: u64 = stack_bottom + stack_len;
        let ctx_addr: u64 = (stack_top - frame_size) & !0xFu64;
        proof {
            lemma_mask_is_floor((stack_top - frame_size) as u64);
        }
        TaskControlBlock {
            id,
            state: TaskState::Ready,
            priority,
            context_ptr: ctx_addr,
            kernel_stack_top: stack_top,
            kernel_stack_bottom: stack_bottom,
            name,
            total_ticks: 0,
            pinned_cpu: None,
            on_cpu: None,
            inbox: VecDeque::new(),
            reply: None,
            wait_for: 0,
            wake_tick: 0,
            user: false,
        }
    }

    /// Creates a user-mode task; the stack becomes its kernel stack, used for
    /// syscalls and interrupts taken from user mode.
    pub fn new_user(
        id: u32,
        stack_bottom: u64,
        stack_len: u64,
        frame_size: u64,
        priority: TaskPriority,
        name: &'static str,
    ) -> (r: Self)
        requires
            stack_holds_context(stack_bottom, stack_len, frame_size),
        ensures
            r@ == fresh_task(id, stack_bottom, stack_len, frame_size, priority, name@, true),
    {
        let mut tcb = TaskControlBlock::new(id, stack_bottom, stack_len, frame_size, priority, name);
        tcb.user = true;
        tcb
    }

    /// Adopts the executing context of `cpu` as a task pinned to it; its
    /// `context_ptr` is filled in when the context is first saved.
    pub fn adopt_current(id: u32, name: &'static str, priority: TaskPriority, cpu: u8) -> (r: Self)
        ensures
            r@ == adopted_task(id, name@, priority, cpu),
    {
        TaskControlBlock {
            id,
            state: TaskState::Running,
            priority,
            context_ptr: 0,
            kernel_stack_top: 0,
            kernel_stack_bottom: 0,
            name,
            total_ticks: 0,
            pinned_cpu: Some(cpu),
            on_cpu: Some(cpu),
            inbox: VecDeque::new(),
            reply: None,
            wait_for: 0,
            wake_tick: 0,
            user: false,
        }
    }

    /// The task in words.
    pub fn describe(&self) -> (r: Vec<u8>)
        ensures
            r@ == "TCB#".spec_bytes() + decimal(self.id as nat) + " \"".spec_bytes()
                + self.name.spec_bytes() + "\" ".spec_bytes() + encode_utf8(self.state.text())
                + " prio=".spec_bytes() + decimal(self.priority as nat) + " ticks=".spec_bytes()
                + decimal(self.total_ticks as nat),
    {
        let mut out: Vec<u8> = Vec::new();
        out.extend_from_slice("TCB#".as_bytes());
        write_dec(&mut out, self.id as u64);
        out.extend_from_slice(" \"".as_bytes());
        out.extend_from_slice(self.name.as_bytes());
        out.extend_from_slice("\" ".as_bytes());
        out.extend_from_slice(self.state.name().as_bytes());
        out.extend_from_slice(" prio=".as_bytes());
        write_dec(&mut out, self.priority as u64);
        out.extend_from_slice(" ticks=".as_bytes());
        write_dec(&mut out, self.total_ticks);
        out
    }
}

} // verus!
