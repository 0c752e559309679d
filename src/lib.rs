//! Task-level diagnostics for asynchronous computations.
//!
//! The library holds the logic of the instrumentation: which task runs on a thread, how a
//! task's resumes turn into lifecycle messages, how each resume becomes trace records in the
//! trace-event format, how those records are framed as JSON, and when the output file rotates.
//! What touches threads, files and the async runtime is left to the caller, who hands plain
//! values in and acts on the plain values that come back.

use vstd::prelude::*;

pub mod absolute_time;
pub mod common;
pub mod ctxt_with_diag;
pub mod current_task;
pub mod record;
pub mod log_out;
pub mod logger;
pub mod output;
pub mod fut_with_diag;

verus! {

/// The name given to tasks spawned through a `DiagSpawn`.
pub const UNNAMED_TASK: &'static str = "unnamed";

/// Wraps a spawner: every task spawned through it is instrumented, under `UNNAMED_TASK`.
pub struct DiagSpawn<T> {
    inner: T,
}

impl<T> DiagSpawn<T> {
    /// Wraps around `inner`.
    pub fn new(inner: T) -> (r: Self)
        ensures
            r.inner() == inner,
    {
        DiagSpawn { inner }
    }

    /// The wrapped spawner.
    pub closed spec fn inner(&self) -> T {
        self.inner
    }

    /// Gives the wrapped spawner back.
    pub fn into_inner(self) -> (r: T)
        ensures
            r == self.inner(),
    {
        self.inner
    }
}

} // verus!
