//! What a wake callback of a task reports when it is invoked.
//!
//! The callback wraps the runtime's own; each invocation is reported, then forwarded. What is
//! reported depends only on the task that owns the callback, which the callback and each of
//! its clones hold unchanged.

use vstd::prelude::*;
use crate::common::{MessageData, Task};
use crate::log_out::{log_wake_up, wake_up_record};
use crate::record::Record;

verus! {

/// The task that a wake callback belongs to.
pub struct WakeTarget {
    task: Task,
}

impl WakeTarget {
    /// The callback of `task`.
    pub fn new(task: Task) -> (r: WakeTarget)
        ensures
            r.task() == task,
    {
        WakeTarget { task }
    }

    /// The task that owns the callback.
    pub closed spec fn task(&self) -> Task {
        self.task
    }

    /// A clone of the callback: it belongs to the same task.
    pub fn cloned(&self) -> (r: WakeTarget)
        ensures
            r.task() == self.task(),
    {
        WakeTarget { task: self.task.cloned() }
    }

    /// The trace record of an invocation on thread `tid` at `now_ns`.
    pub fn wake_record(&self, tid: u32, now_ns: u64) -> (r: Record)
        ensures
            r@ == wake_up_record(self.task().name@, tid, now_ns),
    {
        log_wake_up(self.task.name.as_str(), self.task.id, tid, now_ns)
    }

    /// The message of an invocation. Who invokes the callback is not known here, so the
    /// owner stands as the waker too.
    pub fn wake_message(&self) -> (r: MessageData)
        ensures
            r == (MessageData::TaskWakeUp { woken_up: self.task(), waker: self.task() }),
    {
        MessageData::TaskWakeUp { woken_up: self.task.cloned(), waker: self.task.cloned() }
    }
}

/// Every invocation of a callback or of any clone of it, on whatever thread and at whatever
/// time, reports the task that owns the callback.
pub proof fn lemma_wake_reports_owner(w: WakeTarget, clone: WakeTarget, tid: u32, now_ns: u64)
    requires
        clone.task() == w.task(),
    ensures
        wake_up_record(clone.task().name@, tid, now_ns).name == w.task().name@,
{
}

} // verus!
