//! The trace records of resumes and wake-ups.
//!
//! A resume becomes a `B` record at its start and an `E` record at its end. Resumes of a task
//! are linked by a flow: `s` after the first resume, `t` on each resume in between, `f` on the
//! last one. A task that completes on its first resume gets no flow record. Times are given in
//! nanoseconds since the reference instant and written in whole microseconds.

use vstd::prelude::*;
use crate::record::{BindingPoint, Category, Phase, Record, RecordView, records_view};

verus! {

/// The process number written in every record.
pub const PROCESS_ID: u32 = 0;

/// Returns true if an output directory is configured, so that records are written.
pub fn is_enabled(out_directory: &Option<String>) -> (r: bool)
    ensures
        r == out_directory.is_some(),
{
    out_directory.is_some()
}

/// Whole microseconds in `ns` nanoseconds, rounded down.
pub open spec fn micros(ns: u64) -> u64 {
    (ns / 1000) as u64
}

/// A `B` or `E` record of a resume of the task named `name`.
pub open spec fn span_record(name: Seq<char>, ph: Phase, tid: u32, ts: u64) -> RecordView {
    RecordView {
        cat: Category::Polling,
        name,
        ph,
        pid: PROCESS_ID,
        tid,
        ts,
        dur: None,
        id: None,
        bp: None,
    }
}

/// The flow phase of a resume: `s` on the first, `f` on the last, `t` in between.
pub open spec fn flow_phase(first_time: bool, last_time: bool) -> Phase {
    if first_time {
        Phase::FlowStart
    } else if last_time {
        Phase::FlowEnd
    } else {
        Phase::FlowStep
    }
}

/// The flow record of a resume from `start_ts` to `end_ts`: at the end of the first resume,
/// at the start of any other.
pub open spec fn flow_record(
    name: Seq<char>,
    task_id: u64,
    tid: u32,
    start_ts: u64,
    end_ts: u64,
    first_time: bool,
    last_time: bool,
) -> RecordView {
    RecordView {
        cat: Category::Polling,
        name,
        ph: flow_phase(first_time, last_time),
        pid: PROCESS_ID,
        tid,
        ts: if first_time { end_ts } else { start_ts },
        dur: None,
        id: Some(task_id),
        bp: Some(BindingPoint::Enclosing),
    }
}

/// The records of one resume of a task, in the order they are written.
pub open spec fn poll_records(
    name: Seq<char>,
    task_id: u64,
    tid: u32,
    start_ns: u64,
    end_ns: u64,
    first_time: bool,
    last_time: bool,
) -> Seq<RecordView> {
    let begin = span_record(name, Phase::Begin, tid, micros(start_ns));
    let end = span_record(name, Phase::End, tid, micros(end_ns));
    if first_time && last_time {
        seq![begin, end]
    } else {
        seq![begin, end, flow_record(name, task_id, tid, micros(start_ns), micros(end_ns), first_time, last_time)]
    }
}

/// The record of a wake-up of the task named `name`.
pub open spec fn wake_up_record(name: Seq<char>, tid: u32, now_ns: u64) -> RecordView {
    RecordView {
        cat: Category::Wakeup,
        name,
        ph: Phase::Instant,
        pid: PROCESS_ID,
        tid,
        ts: micros(now_ns),
        dur: None,
        id: None,
        bp: None,
    }
}

fn polling_record(task_name: &str, ph: Phase, tid: u32, ts: u64) -> (r: Record)
    ensures
        r@ == span_record(task_name@, ph, tid, ts),
{
    Record {
        cat: Category::Polling,
        name: task_name.to_owned(),
        ph,
        pid: PROCESS_ID,
        tid,
        ts,
        dur: None,
        id: None,
        bp: None,
    }
}

/// The records of one resume of a task.
///
/// - `task_id` tells apart tasks of the same name.
/// - `tid` is the number of the thread that resumed the task.
/// - `start_ns` and `end_ns` are the times at which the resume started and ended.
/// - `first_time` is true on the first resume of the task.
/// - `last_time` is true if the task completed in this resume.
pub fn log_poll(
    task_name: &str,
    task_id: u64,
    tid: u32,
    start_ns: u64,
    end_ns: u64,
    first_time: bool,
    last_time: bool,
) -> (r: Vec<Record>)
    ensures
        records_view(r@) == poll_records(task_name@, task_id, tid, start_ns, end_ns, first_time, last_time),
{
    let start_ts = start_ns / 1000;
    let end_ts = end_ns / 1000;
    let mut out: Vec<Record> = Vec::new();
    out.push(polling_record(task_name, Phase::Begin, tid, start_ts));
    out.push(polling_record(task_name, Phase::End, tid, end_ts));
    if !(first_time && last_time) {
        let ph = if first_time {
            Phase::FlowStart
        } else if last_time {
            Phase::FlowEnd
        } else {
            Phase::FlowStep
        };
        out.push(Record {
            cat: Category::Polling,
            name: task_name.to_owned(),
            ph,
            pid: PROCESS_ID,
            tid,
            ts: if first_time { end_ts } else { start_ts },
            dur: None,
            id: Some(task_id),
            bp: Some(BindingPoint::Enclosing),
        });
    }
    assert(records_view(out@) =~= poll_records(task_name@, task_id, tid, start_ns, end_ns, first_time, last_time));
    out
}

/// The record of a call to a wake callback of the task named `task_name`, made on thread
/// `tid` at `now_ns`.
pub fn log_wake_up(task_name: &str, task_id: u64, tid: u32, now_ns: u64) -> (r: Record)
    ensures
        r@ == wake_up_record(task_name@, tid, now_ns),
{
    Record {
        cat: Category::Wakeup,
        name: task_name.to_owned(),
        ph: Phase::Instant,
        pid: PROCESS_ID,
        tid,
        ts: now_ns / 1000,
        dur: None,
        id: None,
        bp: None,
    }
}

} // verus!
