//! Which task, if any, runs on a thread right now.
//!
//! A `TaskContext` is the state of one thread. Entering a context hands back a guard that
//! holds the previous one, and leaving with that guard puts it back.

use vstd::prelude::*;
use crate::common::Task;

verus! {

/// The context that code runs in.
#[derive(Debug, Clone, PartialEq, Eq)]
pub enum CurrentTask {
    /// Outside of any instrumented code.
    NoTask,
    /// Inside the instrumentation or the runtime's own bookkeeping.
    System,
    /// Inside a resume of the given task.
    Task(Task),
}

impl CurrentTask {
    /// This context again, as a value of its own.
    pub fn cloned(&self) -> (r: CurrentTask)
        ensures
            r == *self,
    {
        match self {
            CurrentTask::NoTask => CurrentTask::NoTask,
            CurrentTask::System => CurrentTask::System,
            CurrentTask::Task(t) => CurrentTask::Task(t.cloned()),
        }
    }
}

/// The context of one thread.
pub struct TaskContext {
    current: CurrentTask,
}

/// Proof that a context was entered: leaving with it restores `previous_value`.
pub struct EnterGuard {
    previous_value: CurrentTask,
}

impl TaskContext {
    /// The context of a thread that has entered nothing.
    pub fn new() -> (r: TaskContext)
        ensures
            r@ == CurrentTask::NoTask,
    {
        TaskContext { current: CurrentTask::NoTask }
    }

    pub closed spec fn view(&self) -> CurrentTask {
        self.current
    }
}

impl EnterGuard {
    /// The context that leaving with this guard restores.
    pub closed spec fn previous(&self) -> CurrentTask {
        self.previous_value
    }
}

/// Returns the context that `ctx` is currently in.
pub fn current_task(ctx: &TaskContext) -> (r: CurrentTask)
    ensures
        r == ctx@,
{
    ctx.current.cloned()
}

/// Makes `state` the current context and returns a guard that holds the one it replaces.
pub fn enter(ctx: &mut TaskContext, state: CurrentTask) -> (guard: EnterGuard)
    ensures
        final(ctx)@ == state,
        guard.previous() == old(ctx)@,
{
    let previous_value = ctx.current.cloned();
    ctx.current = state;
    EnterGuard { previous_value }
}

/// Restores the context that was current when `guard` was obtained.
pub fn leave(ctx: &mut TaskContext, guard: EnterGuard)
    ensures
        final(ctx)@ == guard.previous(),
{
    ctx.current = guard.previous_value;
}

} // verus!
