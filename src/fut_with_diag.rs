//! The state of an instrumented task across its resumes.
//!
//! The caller drives the task: before each resume it calls `begin_poll` with the thread that
//! resumes, after it `end_poll` with whether the task completed. The state answers with the
//! lifecycle messages and the trace records of that resume. A task goes from created to
//! suspended and back through its resumes, and ends completed; a completed task cannot be
//! resumed again.

use vstd::prelude::*;
use crate::common::{MessageData, Task};
use crate::log_out::{log_poll, poll_records, flow_phase, micros};
use crate::record::{Phase, Record, RecordView, records_view};

verus! {

/// A misuse of a task's state by its caller.
#[derive(Debug, Clone, Copy, PartialEq, Eq, Structural)]
pub enum PollError {
    /// The task completed already and cannot be resumed again.
    AlreadyCompleted,
    /// The task is being resumed already: it cannot be resumed twice at once.
    AlreadyPolling,
    /// No resume of the task has begun.
    NotPolling,
}

/// Hands out task numbers, each once.
pub struct TaskIds {
    next: u64,
}

impl TaskIds {
    /// Numbers from zero.
    pub fn new() -> (r: TaskIds)
        ensures
            r.next_id() == 0,
    {
        TaskIds { next: 0 }
    }

    /// The number that `allocate` hands out next.
    pub closed spec fn next_id(&self) -> nat {
        self.next as nat
    }

    /// The next number, or `None` once all numbers are spent: a number is never handed out
    /// twice.
    pub fn allocate(&mut self) -> (r: Option<u64>)
        ensures
            old(self).next_id() < u64::MAX ==> r == Some(old(self).next_id() as u64)
                && final(self).next_id() == old(self).next_id() + 1,
            old(self).next_id() >= u64::MAX ==> r is None && final(self).next_id() == old(self).next_id(),
    {
        if self.next < u64::MAX {
            let id = self.next;
            self.next = self.next + 1;
            Some(id)
        } else {
            None
        }
    }
}

/// What a finished resume produced.
pub struct PollReport {
    /// `PollEnd`, and `TaskEnd` if the task completed.
    pub messages: Vec<MessageData>,
    /// The trace records of the resume.
    pub records: Vec<Record>,
}

/// The messages that a resume on `thread` begins with, after a previous resume on
/// `previous_thread`, if any.
pub open spec fn begin_messages(task: Task, previous_thread: Option<u32>, thread: u32) -> Seq<MessageData> {
    match previous_thread {
        Some(p) if p != thread => seq![
            MessageData::PollingThreadChange { task, previous_thread: p, new_thread: thread },
            MessageData::PollStart(task),
        ],
        _ => seq![MessageData::PollStart(task)],
    }
}

/// The duration from `start_ns` to `end_ns`, zero if the end is earlier.
pub open spec fn elapsed(start_ns: u64, end_ns: u64) -> u64 {
    if end_ns >= start_ns { (end_ns - start_ns) as u64 } else { 0 }
}

/// The messages that a resume ends with.
pub open spec fn end_messages(task: Task, start_ns: u64, end_ns: u64, ready: bool) -> Seq<MessageData> {
    let poll_end = MessageData::PollEnd { task, poll_duration_ns: elapsed(start_ns, end_ns) };
    if ready {
        seq![poll_end, MessageData::TaskEnd(task)]
    } else {
        seq![poll_end]
    }
}

/// Neither a `TaskStart` nor a `TaskEnd`.
pub open spec fn is_poll_message(m: MessageData) -> bool {
    !(m is TaskStart) && !(m is TaskEnd)
}

/// The phases of the `B` and `E` records among `rs`, in order.
pub open spec fn span_marks(rs: Seq<RecordView>) -> Seq<Phase>
    decreases rs.len(),
{
    if rs.len() == 0 {
        Seq::empty()
    } else {
        let last = rs.last();
        let rest = span_marks(rs.drop_last());
        if last.ph is Begin || last.ph is End { rest.push(last.ph) } else { rest }
    }
}

/// The times of the `B` and `E` records among `rs`, in order.
pub open spec fn span_times(rs: Seq<RecordView>) -> Seq<u64>
    decreases rs.len(),
{
    if rs.len() == 0 {
        Seq::empty()
    } else {
        let last = rs.last();
        let rest = span_times(rs.drop_last());
        if last.ph is Begin || last.ph is End { rest.push(last.ts) } else { rest }
    }
}

/// The phases of the flow records among `rs`, in order.
pub open spec fn flow_marks(rs: Seq<RecordView>) -> Seq<Phase>
    decreases rs.len(),
{
    if rs.len() == 0 {
        Seq::empty()
    } else {
        let last = rs.last();
        let rest = flow_marks(rs.drop_last());
        if last.ph is FlowStart || last.ph is FlowStep || last.ph is FlowEnd { rest.push(last.ph) } else { rest }
    }
}

/// `n` spans: `B`, `E`, `B`, `E`, ...
pub open spec fn alternating_spans(n: nat) -> Seq<Phase> {
    Seq::new(2 * n, |i: int| if i % 2 == 0 { Phase::Begin } else { Phase::End })
}

/// `n` flow steps.
pub open spec fn flow_steps(n: nat) -> Seq<Phase> {
    Seq::new(n, |i: int| Phase::FlowStep)
}

/// The flow records of a task after `resumes` finished resumes, `completed` telling whether
/// the last of them completed it: none if there was no resume or a single one that
/// completed; else one `s`, a `t` for each resume between the first and the last, and an `f`
/// if the task completed.
pub open spec fn expected_flow(resumes: nat, completed: bool) -> Seq<Phase> {
    if resumes == 0 || (completed && resumes == 1) {
        Seq::empty()
    } else if completed {
        seq![Phase::FlowStart] + flow_steps((resumes - 2) as nat) + seq![Phase::FlowEnd]
    } else {
        seq![Phase::FlowStart] + flow_steps((resumes - 1) as nat)
    }
}

/// An instrumented task between its resumes, or during one.
pub struct DiagnoseTask {
    task: Task,
    first_time_poll: bool,
    previous_thread: Option<u32>,
    polling: bool,
    completed: bool,
    poll_thread: u32,
    poll_start_ns: u64,
    /// Every message produced for the task so far.
    messages: Ghost<Seq<MessageData>>,
    /// Every trace record produced for the task so far.
    records: Ghost<Seq<RecordView>>,
    /// The number of finished resumes.
    resumes: Ghost<nat>,
    /// The latest time handed in.
    last_time: Ghost<u64>,
    /// Whether the times handed in so far never went back.
    times_in_order: Ghost<bool>,
}

impl DiagnoseTask {
    pub closed spec fn task(&self) -> Task {
        self.task
    }

    pub closed spec fn is_polling(&self) -> bool {
        self.polling
    }

    pub closed spec fn is_completed(&self) -> bool {
        self.completed
    }

    /// The thread of the latest resume that began, if any.
    pub closed spec fn previous_thread(&self) -> Option<u32> {
        self.previous_thread
    }

    /// Every message produced for the task so far, `TaskStart` first.
    pub closed spec fn messages(&self) -> Seq<MessageData> {
        self.messages@
    }

    /// Every trace record produced for the task so far.
    pub closed spec fn records(&self) -> Seq<RecordView> {
        self.records@
    }

    /// The number of resumes that have ended.
    pub closed spec fn resumes(&self) -> nat {
        self.resumes@
    }

    /// The latest time handed to `begin_poll` or `end_poll`; zero before any.
    pub closed spec fn last_time(&self) -> u64 {
        self.last_time@
    }

    /// Whether the times handed to `begin_poll` and `end_poll` so far never went back.
    pub closed spec fn times_in_order(&self) -> bool {
        self.times_in_order@
    }

    pub closed spec fn wf(&self) -> bool {
        &&& self.first_time_poll == (self.resumes@ == 0)
        &&& !(self.polling && self.completed)
        &&& (self.completed ==> self.resumes@ > 0)
        &&& (self.previous_thread is None <==> (self.resumes@ == 0 && !self.polling))
        &&& (self.polling ==> self.previous_thread == Some(self.poll_thread))
        &&& self.messages@.len() >= 1
        &&& self.messages@[0] == MessageData::TaskStart(self.task)
        &&& (self.completed ==> self.messages@.last() == MessageData::TaskEnd(self.task))
        &&& forall|i: int|
            1 <= i < self.messages@.len() - (if self.completed { 1int } else { 0 })
                ==> is_poll_message(#[trigger] self.messages@[i])
        &&& span_marks(self.records@) == alternating_spans(self.resumes@)
        &&& flow_marks(self.records@) == expected_flow(self.resumes@, self.completed)
        &&& span_times(self.records@).len() == span_marks(self.records@).len()
        &&& (self.polling ==> self.poll_start_ns == self.last_time@)
        &&& (self.times_in_order@ ==> {
            &&& forall|i: int, j: int| 0 <= i <= j < span_times(self.records@).len()
                ==> #[trigger] span_times(self.records@)[i] <= #[trigger] span_times(self.records@)[j]
            &&& forall|i: int| 0 <= i < span_times(self.records@).len()
                ==> #[trigger] span_times(self.records@)[i] <= micros(self.last_time@)
        })
    }

    /// A task that has not been resumed yet, and its `TaskStart` message.
    pub fn new(name: String, id: u64) -> (r: (DiagnoseTask, MessageData))
        ensures
            r.0.wf(),
            r.0.task() == (Task { name, id }),
            !r.0.is_polling(),
            !r.0.is_completed(),
            r.0.previous_thread() is None,
            r.0.resumes() == 0,
            r.0.messages() == seq![MessageData::TaskStart(Task { name, id })],
            r.0.records() == Seq::<RecordView>::empty(),
            r.0.last_time() == 0,
            r.0.times_in_order(),
            r.1 == MessageData::TaskStart(Task { name, id }),
    {
        let task = Task { name, id };
        let start = MessageData::TaskStart(task.cloned());
        let ghost first_messages: Seq<MessageData> = seq![start];
        let state = DiagnoseTask {
            task,
            first_time_poll: true,
            previous_thread: None,
            polling: false,
            completed: false,
            poll_thread: 0,
            poll_start_ns: 0,
            messages: Ghost(first_messages),
            records: Ghost(Seq::empty()),
            resumes: Ghost(0),
            last_time: Ghost(0),
            times_in_order: Ghost(true),
        };
        assert(span_marks(state.records@) =~= alternating_spans(0));
        assert(flow_marks(state.records@) =~= expected_flow(0, false));
        (state, start)
    }

    /// The task's name and number.
    pub fn task_ref(&self) -> (r: &Task)
        ensures
            *r == self.task(),
    {
        &self.task
    }

    /// A resume of the task begins on thread `thread` at `now_ns`. Returns the messages of
    /// that: `PollingThreadChange` if the previous resume was on another thread, then
    /// `PollStart`.
    pub fn begin_poll(&mut self, thread: u32, now_ns: u64) -> (r: Result<Vec<MessageData>, PollError>)
        requires
            old(self).wf(),
        ensures
            final(self).wf(),
            final(self).task() == old(self).task(),
            old(self).is_completed() ==> r == Err::<Vec<MessageData>, PollError>(PollError::AlreadyCompleted),
            !old(self).is_completed() && old(self).is_polling()
                ==> r == Err::<Vec<MessageData>, PollError>(PollError::AlreadyPolling),
            r is Err ==> final(self).messages() == old(self).messages()
                && final(self).records() == old(self).records()
                && final(self).resumes() == old(self).resumes()
                && final(self).is_polling() == old(self).is_polling()
                && final(self).is_completed() == old(self).is_completed()
                && final(self).previous_thread() == old(self).previous_thread()
                && final(self).poll_start() == old(self).poll_start()
                && final(self).poll_thread() == old(self).poll_thread()
                && final(self).last_time() == old(self).last_time()
                && final(self).times_in_order() == old(self).times_in_order(),
            !old(self).is_completed() && !old(self).is_polling() ==> (r matches Ok(ms)
                && ms@ == begin_messages(old(self).task(), old(self).previous_thread(), thread)
                && final(self).messages() == old(self).messages() + ms@
                && final(self).records() == old(self).records()
                && final(self).resumes() == old(self).resumes()
                && final(self).is_polling()
                && !final(self).is_completed()
                && final(self).previous_thread() == Some(thread)
                && final(self).poll_start() == now_ns
                && final(self).poll_thread() == thread
                && final(self).last_time() == now_ns
                && final(self).times_in_order() == (old(self).times_in_order() && now_ns >= old(self).last_time())),
    {
        if self.completed {
            return Err(PollError::AlreadyCompleted);
        }
        if self.polling {
            return Err(PollError::AlreadyPolling);
        }
        let mut out: Vec<MessageData> = Vec::new();
        match self.previous_thread {
            Some(p) => {
                if p != thread {
                    out.push(MessageData::PollingThreadChange {
                        task: self.task.cloned(),
                        previous_thread: p,
                        new_thread: thread,
                    });
                }
            },
            None => {},
        }
        out.push(MessageData::PollStart(self.task.cloned()));
        assert(out@ =~= begin_messages(self.task, self.previous_thread, thread));
        self.previous_thread = Some(thread);
        self.polling = true;
        self.poll_thread = thread;
        self.poll_start_ns = now_ns;
        let ghost old_last = self.last_time@;
        let ghost in_order = self.times_in_order@ && now_ns >= old_last;
        self.times_in_order = Ghost(in_order);
        self.last_time = Ghost(now_ns);
        proof {
            if self.times_in_order@ {
                lemma_micros_monotone(old_last, now_ns);
            }
        }
        let ghost old_messages = self.messages@;
        self.messages = Ghost(old_messages + out@);
        assert forall|i: int|
            1 <= i < self.messages@.len() - (if self.completed { 1int } else { 0 })
                implies is_poll_message(#[trigger] self.messages@[i]) by {
            if i >= old_messages.len() {
                assert(self.messages@[i] == out@[i - old_messages.len()]);
            } else {
                assert(self.messages@[i] == old_messages[i]);
            }
        }
        Ok(out)
    }

    /// The resume that began ends at `now_ns`; `ready` tells whether the task completed in
    /// it. Returns `PollEnd` (and `TaskEnd` if the task completed) with the trace records of
    /// the resume.
    pub fn end_poll(&mut self, now_ns: u64, ready: bool) -> (r: Result<PollReport, PollError>)
        requires
            old(self).wf(),
        ensures
            final(self).wf(),
            final(self).task() == old(self).task(),
            !old(self).is_polling() ==> r == Err::<PollReport, PollError>(PollError::NotPolling)
                && final(self).messages() == old(self).messages()
                && final(self).records() == old(self).records()
                && final(self).resumes() == old(self).resumes()
                && final(self).is_polling() == old(self).is_polling()
                && final(self).is_completed() == old(self).is_completed()
                && final(self).previous_thread() == old(self).previous_thread()
                && final(self).last_time() == old(self).last_time()
                && final(self).times_in_order() == old(self).times_in_order(),
            old(self).is_polling() ==> (r matches Ok(rep)
                && rep.messages@ == end_messages(
                    old(self).task(), old(self).poll_start(), now_ns, ready)
                && records_view(rep.records@) == poll_records(
                    old(self).task().name@, old(self).task().id, old(self).poll_thread(),
                    old(self).poll_start(), now_ns, old(self).resumes() == 0, ready)
                && final(self).messages() == old(self).messages() + rep.messages@
                && final(self).records() == old(self).records() + records_view(rep.records@)
                && final(self).resumes() == old(self).resumes() + 1
                && !final(self).is_polling()
                && final(self).is_completed() == ready
                && final(self).previous_thread() == old(self).previous_thread()
                && final(self).last_time() == now_ns
                && final(self).times_in_order() == (old(self).times_in_order() && now_ns >= old(self).last_time())),
    {
        if !self.polling {
            return Err(PollError::NotPolling);
        }
        let first_time = self.first_time_poll;
        let start = self.poll_start_ns;
        let duration = if now_ns >= start { now_ns - start } else { 0 };
        let mut messages: Vec<MessageData> = Vec::new();
        messages.push(MessageData::PollEnd { task: self.task.cloned(), poll_duration_ns: duration });
        if ready {
            messages.push(MessageData::TaskEnd(self.task.cloned()));
        }
        let records = log_poll(self.task.name.as_str(), self.task.id, self.poll_thread, start, now_ns, first_time, ready);
        assert(messages@ =~= end_messages(self.task, start, now_ns, ready));

        let ghost old_messages = self.messages@;
        let ghost old_records = self.records@;
        let ghost k = self.resumes@;
        let ghost added = records_view(records@);
        proof {
            lemma_marks_of_poll(old_records, self.task.name@, self.task.id, self.poll_thread, start, now_ns, first_time, ready);
            lemma_flow_extends(k, ready);
        }
        self.first_time_poll = false;
        self.polling = false;
        self.completed = ready;
        self.messages = Ghost(old_messages + messages@);
        self.records = Ghost(old_records + added);
        self.resumes = Ghost(k + 1);
        let ghost old_last = self.last_time@;
        let ghost in_order = self.times_in_order@ && now_ns >= old_last;
        self.times_in_order = Ghost(in_order);
        self.last_time = Ghost(now_ns);
        proof {
            assert(alternating_spans(k).push(Phase::Begin).push(Phase::End) =~= alternating_spans(k + 1));
            if self.times_in_order@ {
                lemma_micros_monotone(start, now_ns);
                let st = span_times(self.records@);
                let old_st = span_times(old_records);
                assert(st == old_st.push(micros(start)).push(micros(now_ns)));
                assert forall|i: int, j: int| 0 <= i <= j < st.len() implies #[trigger] st[i] <= #[trigger] st[j] by {
                    if j < old_st.len() {
                        assert(st[i] == old_st[i] && st[j] == old_st[j]);
                    } else if i < old_st.len() {
                        assert(st[i] == old_st[i]);
                    }
                }
                assert forall|i: int| 0 <= i < st.len() implies #[trigger] st[i] <= micros(now_ns) by {
                    if i < old_st.len() {
                        assert(st[i] == old_st[i]);
                    }
                }
            }
            assert forall|i: int|
                1 <= i < self.messages@.len() - (if self.completed { 1int } else { 0 })
                    implies is_poll_message(#[trigger] self.messages@[i]) by {
                if i >= old_messages.len() {
                    assert(self.messages@[i] == messages@[i - old_messages.len()]);
                } else {
                    assert(self.messages@[i] == old_messages[i]);
                }
            }
        }
        Ok(PollReport { messages, records })
    }

    /// The thread of the resume under way.
    pub closed spec fn poll_thread(&self) -> u32 {
        self.poll_thread
    }

    /// The start of the resume under way.
    pub closed spec fn poll_start(&self) -> u64 {
        self.poll_start_ns
    }
}

/// Instruments a new task named `name`: it gets the next number of `ids`, and its
/// `TaskStart` message comes back with it. `None` once all numbers are spent, which leaves
/// `ids` as it was.
pub fn start_task(ids: &mut TaskIds, name: String) -> (r: Option<(DiagnoseTask, MessageData)>)
    ensures
        old(ids).next_id() < u64::MAX ==> (r matches Some((t, m))
            && t.wf()
            && t.task() == (Task { name, id: old(ids).next_id() as u64 })
            && !t.is_polling()
            && !t.is_completed()
            && t.previous_thread() is None
            && t.resumes() == 0
            && t.messages() == seq![m]
            && t.records() == Seq::<RecordView>::empty()
            && m == MessageData::TaskStart(t.task())
            && final(ids).next_id() == old(ids).next_id() + 1),
        old(ids).next_id() >= u64::MAX ==> r is None && final(ids).next_id() == old(ids).next_id(),
{
    match ids.allocate() {
        Some(id) => Some(DiagnoseTask::new(name, id)),
        None => None,
    }
}

/// Tells `TaskStart` messages.
pub open spec fn task_start_pred() -> spec_fn(MessageData) -> bool {
    |m: MessageData| m is TaskStart
}

/// Tells `TaskEnd` messages.
pub open spec fn task_end_pred() -> spec_fn(MessageData) -> bool {
    |m: MessageData| m is TaskEnd
}

/// Over the life of a task exactly one `TaskStart` is produced, and it comes first. A
/// `TaskEnd` is produced exactly once if the task completed, and then it comes last, after
/// the `TaskStart`; a task that has not completed (one dropped while suspended) has none.
pub proof fn lemma_task_start_and_end_once(t: &DiagnoseTask)
    requires
        t.wf(),
    ensures
        t.messages().filter(task_start_pred()).len() == 1,
        t.messages()[0] == MessageData::TaskStart(t.task()),
        t.messages().filter(task_end_pred()).len() == (if t.is_completed() { 1int } else { 0 }),
        t.is_completed() ==> t.messages().len() >= 2
            && t.messages().last() == MessageData::TaskEnd(t.task()),
{
    let c: int = if t.is_completed() { 1 } else { 0 };
    lemma_start_end_counts(t.messages(), c);
}

proof fn lemma_start_end_counts(ms: Seq<MessageData>, c: int)
    requires
        0 <= c <= 1,
        ms.len() >= 1 + c,
        ms[0] is TaskStart,
        c == 1 ==> ms.last() is TaskEnd,
        forall|i: int| 1 <= i < ms.len() - c ==> is_poll_message(#[trigger] ms[i]),
    ensures
        ms.filter(task_start_pred()).len() == 1,
        ms.filter(task_end_pred()).len() == c,
{
    let mid = ms.subrange(1, ms.len() - c);
    let ps = task_start_pred();
    let pe = task_end_pred();
    assert(mid.filter(ps).len() == 0 && mid.filter(pe).len() == 0) by {
        assert forall|j: int| 0 <= j < mid.len() implies !ps(#[trigger] mid[j]) && !pe(mid[j]) by {
            assert(mid[j] == ms[j + 1]);
        }
        mid.lemma_all_neg_filter_empty(ps);
        mid.lemma_all_neg_filter_empty(pe);
    }
    let front = seq![ms[0]] + mid;
    assert(front.filter(ps).len() == 1 && front.filter(pe).len() == 0) by {
        mid.lemma_filter_prepend(ms[0], ps);
        mid.lemma_filter_prepend(ms[0], pe);
    }
    if c == 1 {
        assert(ms =~= front.push(ms.last()));
        front.lemma_filter_push(ms.last(), ps);
        front.lemma_filter_push(ms.last(), pe);
    } else {
        assert(ms =~= front);
    }
}

/// The `B` and `E` records of a task alternate, `B` first, one pair for each finished
/// resume: a span of the task is closed before its next one opens.
pub proof fn lemma_spans_well_nested(t: &DiagnoseTask)
    requires
        t.wf(),
    ensures
        span_marks(t.records()).len() == 2 * t.resumes(),
        forall|i: int| 0 <= i < span_marks(t.records()).len()
            ==> #[trigger] span_marks(t.records())[i] == (if i % 2 == 0 { Phase::Begin } else { Phase::End }),
{
}

/// A task that completed on its first resume has no flow record. One that completed after
/// `k >= 2` resumes has exactly one `s`, then `k - 2` records `t`, then one `f`.
pub proof fn lemma_flow_records_of_completed_task(t: &DiagnoseTask)
    requires
        t.wf(),
        t.is_completed(),
    ensures
        t.resumes() == 1 ==> flow_marks(t.records()) == Seq::<Phase>::empty(),
        t.resumes() >= 2 ==> flow_marks(t.records())
            == seq![Phase::FlowStart] + flow_steps((t.resumes() - 2) as nat) + seq![Phase::FlowEnd],
{
}

/// The `B` and `E` records of a task whose times, handed to `begin_poll` and `end_poll`, never
/// went back have times that never go back either: each span begins no later than it ends,
/// and ends no later than the next one begins.
pub proof fn lemma_span_times_ordered(t: &DiagnoseTask)
    requires
        t.wf(),
        t.times_in_order(),
    ensures
        span_times(t.records()).len() == 2 * t.resumes(),
        forall|i: int, j: int| 0 <= i <= j < span_times(t.records()).len()
            ==> #[trigger] span_times(t.records())[i] <= #[trigger] span_times(t.records())[j],
{
}

/// A task that has not completed, such as one dropped while suspended, has no `f` record: its
/// flow records are an `s` after its first resume and a `t` for each later one.
pub proof fn lemma_flow_records_of_unfinished_task(t: &DiagnoseTask)
    requires
        t.wf(),
        !t.is_completed(),
    ensures
        flow_marks(t.records()) == expected_flow(t.resumes(), false),
        !flow_marks(t.records()).contains(Phase::FlowEnd),
{
    let f = flow_marks(t.records());
    if t.resumes() > 0 {
        assert forall|i: int| 0 <= i < f.len() implies f[i] != Phase::FlowEnd by {
            if i > 0 {
                assert(f[i] == flow_steps((t.resumes() - 1) as nat)[i - 1]);
            }
        }
    }
}

/// Whole microseconds never go back when nanoseconds do not.
proof fn lemma_micros_monotone(a: u64, b: u64)
    requires
        a <= b,
    ensures
        micros(a) <= micros(b),
{
    assert(a / 1000 <= b / 1000) by (nonlinear_arith)
        requires
            a <= b,
    ;
}

/// The marks of a sequence that grows by one element.
proof fn lemma_marks_push(rs: Seq<RecordView>, x: RecordView)
    ensures
        span_marks(rs.push(x)) == (if x.ph is Begin || x.ph is End { span_marks(rs).push(x.ph) } else { span_marks(rs) }),
        flow_marks(rs.push(x)) == (if x.ph is FlowStart || x.ph is FlowStep || x.ph is FlowEnd { flow_marks(rs).push(x.ph) } else { flow_marks(rs) }),
        span_times(rs.push(x)) == (if x.ph is Begin || x.ph is End { span_times(rs).push(x.ts) } else { span_times(rs) }),
{
    assert(rs.push(x).drop_last() =~= rs);
}

/// What the records of one resume add to the span and flow marks.
proof fn lemma_marks_of_poll(
    rs: Seq<RecordView>,
    name: Seq<char>,
    task_id: u64,
    tid: u32,
    start_ns: u64,
    end_ns: u64,
    first_time: bool,
    last_time: bool,
)
    ensures
        span_marks(rs + poll_records(name, task_id, tid, start_ns, end_ns, first_time, last_time))
            == span_marks(rs).push(Phase::Begin).push(Phase::End),
        span_times(rs + poll_records(name, task_id, tid, start_ns, end_ns, first_time, last_time))
            == span_times(rs).push(micros(start_ns)).push(micros(end_ns)),
        flow_marks(rs + poll_records(name, task_id, tid, start_ns, end_ns, first_time, last_time))
            == (if first_time && last_time { flow_marks(rs) } else { flow_marks(rs).push(flow_phase(first_time, last_time)) }),
{
    let p = poll_records(name, task_id, tid, start_ns, end_ns, first_time, last_time);
    lemma_marks_push(rs, p[0]);
    lemma_marks_push(rs.push(p[0]), p[1]);
    assert(rs + p.subrange(0, 2) =~= rs.push(p[0]).push(p[1]));
    if first_time && last_time {
        assert(rs + p =~= rs.push(p[0]).push(p[1]));
    } else {
        lemma_marks_push(rs.push(p[0]).push(p[1]), p[2]);
        assert(rs + p =~= rs.push(p[0]).push(p[1]).push(p[2]));
    }
}

/// The expected flow after one more resume.
proof fn lemma_flow_extends(k: nat, ready: bool)
    ensures
        (if k == 0 && ready { expected_flow(k, false) } else { expected_flow(k, false).push(flow_phase(k == 0, ready)) })
            == expected_flow(k + 1, ready),
{
    if k == 0 {
        if !ready {
            assert(seq![Phase::FlowStart] + flow_steps(0) =~= Seq::<Phase>::empty().push(Phase::FlowStart));
        }
    } else if ready {
        assert(seq![Phase::FlowStart] + flow_steps((k - 1) as nat) + seq![Phase::FlowEnd]
            =~= (seq![Phase::FlowStart] + flow_steps((k - 1) as nat)).push(Phase::FlowEnd));
    } else {
        assert(seq![Phase::FlowStart] + flow_steps(k as nat)
            =~= (seq![Phase::FlowStart] + flow_steps((k - 1) as nat)).push(Phase::FlowStep));
    }
}

} // verus!
