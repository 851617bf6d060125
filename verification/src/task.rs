use vstd::prelude::*;

use std::sync::Arc;
use std::sync::atomic::AtomicBool;

verus! {

/// A task's payload shape: run once, or run repeatedly with a fixed
/// interval between one run's completion and the next deadline.
#[derive(Clone, Copy, PartialEq, Eq, Structural, Debug)]
pub enum TaskKind {
    Once,
    Repeating { interval: u64 },
}

/// One scheduled invocation, over plain clock ticks. Periodic work is a
/// chain of entries: running one yields at most one successor under the
/// same id.
#[derive(Clone, Copy, PartialEq, Eq, Structural, Debug)]
pub struct TaskEntry {
    /// Unique per schedule, strictly increasing with submission order;
    /// the deterministic tie-break for equal deadlines.
    pub id: u64,
    /// Monotonic deadline, in ticks.
    pub deadline: u64,
    pub kind: TaskKind,
}

/// `a` fires no later than `b`: the earlier deadline wins, and an equal
/// deadline goes to the earlier submission (smaller id).
pub open spec fn fires_before(a: TaskEntry, b: TaskEntry) -> bool {
    a.deadline < b.deadline || (a.deadline == b.deadline && a.id <= b.id)
}

/// The firing order is total: of any two entries, one fires no later.
pub proof fn lemma_fires_before_total(a: TaskEntry, b: TaskEntry)
    ensures
        fires_before(a, b) || fires_before(b, a),
{
}

/// Whether an entry is due at `now` — the clock has reached its deadline
/// — and if not, how many ticks remain.
#[derive(Clone, Copy, PartialEq, Eq, Structural, Debug)]
pub enum Ready {
    Now,
    In(u64),
}

impl TaskEntry {
    pub fn new(id: u64, deadline: u64, kind: TaskKind) -> (r: TaskEntry)
        ensures
            r == (TaskEntry { id, deadline, kind }),
    {
        TaskEntry { id, deadline, kind }
    }

    /// The id of this entry, for diagnostics and the tie-break.
    pub fn id(&self) -> (r: u64)
        ensures
            r == self.id,
    {
        self.id
    }

    /// Due once `now` reaches the deadline; otherwise reports how long
    /// the worker may sleep before this entry is due.
    pub fn ready(&self, now: u64) -> (r: Ready)
        ensures
            now >= self.deadline ==> r == Ready::Now,
            now < self.deadline ==> r == Ready::In((self.deadline - now) as u64),
    {
        if now >= self.deadline {
            Ready::Now
        } else {
            Ready::In(self.deadline - now)
        }
    }

    /// The at-most-one successor of a completed run: a repeating entry is
    /// rescheduled at `completion_time + interval` under the same id — so
    /// a slow body drifts the cadence rather than overlapping runs — and
    /// a one-shot entry has none.
    pub fn successor(&self, completion_time: u64) -> (r: Option<TaskEntry>)
        requires
            self.kind matches TaskKind::Repeating { interval } ==> completion_time + interval
                <= u64::MAX,
        ensures
            self.kind is Once ==> r is None,
            self.kind matches TaskKind::Repeating { interval } ==> r == Some(
                TaskEntry {
                    id: self.id,
                    deadline: (completion_time + interval) as u64,
                    kind: self.kind,
                },
            ),
    {
        match self.kind {
            TaskKind::Once => None,
            TaskKind::Repeating { interval } => Some(
                TaskEntry { id: self.id, deadline: completion_time + interval, kind: self.kind },
            ),
        }
    }
}

/// Executable comparison agreeing with `fires_before`.
pub fn fires_no_later(a: &TaskEntry, b: &TaskEntry) -> (r: bool)
    ensures
        r == fires_before(*a, *b),
{
    a.deadline < b.deadline || (a.deadline == b.deadline && a.id <= b.id)
}

/// Whether a popped entry's body is run at all, from the two flags the
/// worker reads just beforehand: the guard's cancellation flag and the
/// re-entrancy flag left raised by an unrecovered earlier failure.
pub fn should_run(cancelled: bool, already_running: bool) -> (r: bool)
    ensures
        r == (!cancelled && !already_running),
{
    !cancelled && !already_running
}

/// A caller-held handle to a submitted task. Releasing it un-detached
/// requests cancellation through a flag shared with the worker; `detach`
/// gives that power up so the task runs regardless.
pub struct TaskGuard {
    task_id: u64,
    dropped: Option<Arc<AtomicBool>>,
}

impl TaskGuard {
    /// Whether releasing the guard still cancels the task.
    pub closed spec fn armed(&self) -> bool {
        self.dropped is Some
    }

    pub closed spec fn spec_task_id(&self) -> u64 {
        self.task_id
    }

    /// Bind a guard to the cancellation flag shared with a task.
    pub fn new(task_id: u64, dropped: Arc<AtomicBool>) -> (r: TaskGuard)
        ensures
            r.spec_task_id() == task_id,
            r.armed(),
    {
        TaskGuard { task_id, dropped: Some(dropped) }
    }

    /// The id of the underlying task, for diagnostics.
    pub fn task_id(&self) -> (r: u64)
        ensures
            r == self.spec_task_id(),
    {
        self.task_id
    }

    /// Detach this guard from the underlying task, so that releasing it
    /// no longer cancels the task: the task runs to completion — or
    /// forever, if periodic — with no guard left to observe it.
    pub fn detach(self) {
        let mut this = self;
        this.dropped = None;
    }
}

impl Drop for TaskGuard {
    /// Releasing an armed guard requests cancellation. Relies on
    /// `core::sync::atomic::AtomicBool::store` to raise the shared flag
    /// that the worker reads before running the task; a detached guard
    /// holds no flag and stores nothing.
    #[verifier::external_body]
    fn drop(&mut self)
        opens_invariants none
        no_unwind
    {
        if let Some(dropped) = self.dropped.take() {
            dropped.store(true, core::sync::atomic::Ordering::Relaxed);
        }
    }
}

} // verus!
