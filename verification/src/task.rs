//! The task control block: status, saved context, and the accounting that the
//! system-call and dispatch paths keep for one task.

use vstd::prelude::*;

use crate::config::{BIG_STRIDE, MAX_SYSCALL_NUM};
use crate::context::TaskContext;

verus! {

/// Where a task is in its life. A task starts `UnInit`, becomes `Ready` once
/// it is created, alternates between `Ready` and `Running`, and ends `Exited`.
#[derive(Clone, Copy, Debug, PartialEq, Eq, Structural)]
pub enum TaskStatus {
    /// Not yet set up.
    UnInit,
    /// Waiting in the ready queue.
    Ready,
    /// On the processor.
    Running,
    /// Finished; never scheduled again.
    Exited,
}

impl TaskStatus {
    /// Whether a task in this state may pass to `next` in one step: a task
    /// that is not set up becomes ready, a ready task is dispatched, a running
    /// task yields or exits, and an exited task stays exited.
    pub open spec fn spec_may_become(self, next: TaskStatus) -> bool {
        ||| self is UnInit && next is Ready
        ||| self is Ready && next is Running
        ||| self is Running && next is Ready
        ||| self is Running && next is Exited
    }

    /// Whether a task in this state may pass to `next` in one step.
    #[verifier::when_used_as_spec(spec_may_become)]
    pub fn may_become(self, next: TaskStatus) -> (ok: bool)
        ensures
            ok == self.spec_may_become(next),
    {
        match self {
            TaskStatus::UnInit => next == TaskStatus::Ready,
            TaskStatus::Ready => next == TaskStatus::Running,
            TaskStatus::Running => next == TaskStatus::Ready || next == TaskStatus::Exited,
            TaskStatus::Exited => false,
        }
    }
}

/// The task control block of one task.
#[derive(Clone, Copy, Debug, PartialEq, Eq)]
pub struct TaskControlBlock {
    /// Where the task is in its life.
    pub task_status: TaskStatus,
    /// Saved execution context.
    pub task_cx: TaskContext,
    /// Clock reading, in milliseconds, of the first dispatch; `None` until then.
    pub first_launch_time: Option<usize>,
    /// How often the task has made each system call, indexed by call id.
    pub syscall_times: [u32; MAX_SYSCALL_NUM],
    /// Scheduling credit used up so far; the lowest stride runs next.
    pub stride: usize,
    /// Share of the processor the task is entitled to; a dispatch costs
    /// `BIG_STRIDE / priority`.
    pub priority: usize,
}

/// What a task control block stands for: the same record over unbounded
/// numbers.
pub struct TaskView {
    /// Where the task is in its life.
    pub status: TaskStatus,
    /// Saved execution context.
    pub context: TaskContext,
    /// Clock reading of the first dispatch, if there was one.
    pub first_launch_time: Option<nat>,
    /// One counter for each system-call id.
    pub syscall_times: Seq<nat>,
    /// Scheduling credit used up so far.
    pub stride: nat,
    /// Share of the processor the task is entitled to.
    pub priority: nat,
}

impl TaskView {
    /// The record after one more system call `id` has been counted. An id
    /// without a counter changes nothing.
    pub open spec fn count_syscall(self, id: nat) -> TaskView {
        if id < self.syscall_times.len() {
            TaskView {
                syscall_times: self.syscall_times.update(
                    id as int,
                    self.syscall_times[id as int] + 1,
                ),
                ..self
            }
        } else {
            self
        }
    }

    /// The record after a dispatch at clock reading `now`: the first reading
    /// is kept, later ones are ignored.
    pub open spec fn record_launch(self, now: nat) -> TaskView {
        match self.first_launch_time {
            Some(_) => self,
            None => TaskView { first_launch_time: Some(now), ..self },
        }
    }

    /// Milliseconds from the first dispatch to `now`; 0 for a task that was
    /// never dispatched.
    pub open spec fn real_runtime(self, now: nat) -> int {
        match self.first_launch_time {
            Some(begin) => now - begin,
            None => 0,
        }
    }

    /// Stride charged for one dispatch.
    pub open spec fn pass(self) -> nat
        recommends
            self.priority > 0,
    {
        BIG_STRIDE as nat / self.priority
    }

    /// The record after the task has been charged for one dispatch.
    pub open spec fn advance_stride(self) -> TaskView
        recommends
            self.priority > 0,
    {
        TaskView { stride: self.stride + self.pass(), ..self }
    }
}

/// One thing that happens to the record of a task.
pub enum TaskEvent {
    /// The task made the system call with this id.
    Syscall(nat),
    /// The task was dispatched at this clock reading.
    Launch(nat),
    /// The scheduler charged the task for a dispatch.
    Charge,
}

impl TaskView {
    /// The record after `event`.
    pub open spec fn after(self, event: TaskEvent) -> TaskView {
        match event {
            TaskEvent::Syscall(id) => self.count_syscall(id),
            TaskEvent::Launch(now) => self.record_launch(now),
            TaskEvent::Charge => self.advance_stride(),
        }
    }

    /// The record after `events`, earliest first.
    pub open spec fn after_all(self, events: Seq<TaskEvent>) -> TaskView
        decreases events.len(),
    {
        if events.len() == 0 {
            self
        } else {
            self.after_all(events.drop_last()).after(events.last())
        }
    }
}

/// Recording a launch is idempotent: once a first launch is recorded, a
/// second recording, at whatever clock reading, changes nothing.
pub proof fn lemma_launch_recorded_once(task: TaskView, first: nat, again: nat)
    ensures
        task.record_launch(first).record_launch(again) == task.record_launch(first),
{
}

/// A launch time that is set stays what it is, whatever happens to the task.
pub proof fn lemma_launch_time_is_kept(task: TaskView, events: Seq<TaskEvent>)
    requires
        task.first_launch_time is Some,
    ensures
        task.after_all(events).first_launch_time == task.first_launch_time,
    decreases events.len(),
{
    if events.len() > 0 {
        lemma_launch_time_is_kept(task, events.drop_last());
    }
}

/// No system-call counter ever decreases: whatever happens to the task, the
/// table keeps its length and every counter is at least what it was.
pub proof fn lemma_counters_never_decrease(task: TaskView, events: Seq<TaskEvent>, id: int)
    requires
        0 <= id < task.syscall_times.len(),
    ensures
        task.after_all(events).syscall_times.len() == task.syscall_times.len(),
        task.after_all(events).syscall_times[id] >= task.syscall_times[id],
    decreases events.len(),
{
    if events.len() > 0 {
        lemma_counters_never_decrease(task, events.drop_last(), id);
    }
}

/// The stride of a task with a priority never decreases, and the priority
/// stays what it is, whatever happens to the task.
pub proof fn lemma_stride_never_decreases(task: TaskView, events: Seq<TaskEvent>)
    requires
        task.priority > 0,
    ensures
        task.after_all(events).priority == task.priority,
        task.after_all(events).stride >= task.stride,
    decreases events.len(),
{
    if events.len() > 0 {
        lemma_stride_never_decreases(task, events.drop_last());
    }
}

impl View for TaskControlBlock {
    type V = TaskView;

    open spec fn view(&self) -> TaskView {
        TaskView {
            status: self.task_status,
            context: self.task_cx,
            first_launch_time: match self.first_launch_time {
                Some(t) => Some(t as nat),
                None => None,
            },
            syscall_times: Seq::new(MAX_SYSCALL_NUM as nat, |i: int| self.syscall_times[i] as nat),
            stride: self.stride as nat,
            priority: self.priority as nat,
        }
    }
}

impl TaskControlBlock {
    /// Whether the task can be charged for one more dispatch: it has a
    /// priority, and its stride stays within `usize`.
    pub open spec fn spec_can_advance(&self) -> bool {
        &&& self.priority > 0
        &&& self.stride + BIG_STRIDE / self.priority <= usize::MAX
    }

    /// Whether the task can be charged for one more dispatch: it has a
    /// priority, and its stride stays within `usize`.
    #[verifier::when_used_as_spec(spec_can_advance)]
    pub fn can_advance(&self) -> (ok: bool)
        ensures
            ok == self.spec_can_advance(),
    {
        self.priority > 0 && BIG_STRIDE / self.priority <= usize::MAX - self.stride
    }

    /// A task that has not run yet: not set up, never launched, no system
    /// call counted, no stride used.
    pub fn new(task_cx: TaskContext, priority: usize) -> (tcb: Self)
        ensures
            tcb@ == (TaskView {
                status: TaskStatus::UnInit,
                context: task_cx,
                first_launch_time: None,
                syscall_times: Seq::new(MAX_SYSCALL_NUM as nat, |i: int| 0nat),
                stride: 0,
                priority: priority as nat,
            }),
    {
        let tcb = TaskControlBlock {
            task_status: TaskStatus::UnInit,
            task_cx,
            first_launch_time: None,
            syscall_times: [0u32; MAX_SYSCALL_NUM],
            stride: 0,
            priority,
        };
        assert(tcb@.syscall_times =~= Seq::new(MAX_SYSCALL_NUM as nat, |i: int| 0nat));
        tcb
    }

    /// Counts one more system call `syscall_id`.
    pub fn update_syscall_times(&mut self, syscall_id: usize)
        requires
            syscall_id < MAX_SYSCALL_NUM,
            old(self).syscall_times[syscall_id as int] < u32::MAX,
        ensures
            final(self)@ == old(self)@.count_syscall(syscall_id as nat),
    {
        self.syscall_times[syscall_id] += 1;
        assert(self@.syscall_times =~= old(self)@.count_syscall(syscall_id as nat).syscall_times);
    }

    /// The system-call counters, indexed by call id.
    pub fn get_syscall_times(&self) -> (times: [u32; MAX_SYSCALL_NUM])
        ensures
            times == self.syscall_times,
            forall|id: int| 0 <= id < MAX_SYSCALL_NUM ==> times[id] == self@.syscall_times[id],
    {
        self.syscall_times
    }

    /// Records `now` as the time of the first dispatch, unless one is
    /// recorded already.
    pub fn record_first_launch_time(&mut self, now: usize)
        ensures
            final(self)@ == old(self)@.record_launch(now as nat),
    {
        if self.first_launch_time.is_none() {
            self.first_launch_time = Some(now);
        }
    }

    /// Milliseconds the task has existed since its first dispatch, at clock
    /// reading `now`; 0 if it was never dispatched. The clock does not run
    /// backwards: `now` is not before the first dispatch.
    pub fn get_task_real_runtime(&self, now: usize) -> (elapsed: usize)
        requires
            self.first_launch_time matches Some(begin) ==> begin <= now,
        ensures
            elapsed == self@.real_runtime(now as nat),
    {
        if let Some(time_begin) = self.first_launch_time {
            now - time_begin
        } else {
            0
        }
    }

    /// Charges the task for one dispatch.
    pub fn update_stride(&mut self)
        requires
            old(self).can_advance(),
        ensures
            final(self)@ == old(self)@.advance_stride(),
    {
        self.stride += BIG_STRIDE / self.priority;
    }
}

} // verus!
