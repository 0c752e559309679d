//! The messages that describe the lifecycle of a task.

use vstd::prelude::*;

verus! {

/// A task: a human-readable name and a process-wide unique number.
#[derive(Debug, Clone, PartialEq, Eq)]
pub struct Task {
    pub name: String,
    pub id: u64,
}

impl Task {
    /// An equal `Task`, as a value of its own.
    pub fn cloned(&self) -> (r: Task)
        ensures
            r == *self,
    {
        Task { name: self.name.clone(), id: self.id }
    }
}

/// What happened to a task.
#[derive(Debug, Clone, PartialEq, Eq)]
pub enum MessageData {
    /// The task was created.
    TaskStart(Task),
    /// The task completed.
    TaskEnd(Task),
    /// The wake callback of `woken_up` was invoked. The invoking context is not known, so
    /// `waker` is the owner of the callback too.
    TaskWakeUp { woken_up: Task, waker: Task },
    /// The task was resumed on another thread than on its previous resume.
    PollingThreadChange { task: Task, previous_thread: u32, new_thread: u32 },
    /// A resume of the task starts.
    PollStart(Task),
    /// A resume of the task ended, after `poll_duration_ns` nanoseconds.
    PollEnd { task: Task, poll_duration_ns: u64 },
}

/// A message with the time, in nanoseconds since the reference instant, at which it was
/// produced.
#[derive(Debug, Clone, PartialEq, Eq)]
pub struct Message {
    pub timestamp_ns: u64,
    pub data: MessageData,
}

} // verus!
