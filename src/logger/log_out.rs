//! The trace records of the message-reporting variant.
//!
//! A resume becomes one `X` record with its duration. Resumes of a task are linked by flows:
//! an `s` at the end of each resume after which the task goes on, and an `f` at the start of
//! each resume but the first.

use vstd::prelude::*;
use crate::log_out::{PROCESS_ID, micros, wake_up_record};
use crate::record::{Category, Phase, Record, RecordView, records_view};

verus! {

/// A flow record of this variant, without binding point.
pub open spec fn link_record(name: Seq<char>, task_id: u64, ph: Phase, tid: u32, ts: u64) -> RecordView {
    RecordView {
        cat: Category::Polling,
        name,
        ph,
        pid: PROCESS_ID,
        tid,
        ts,
        dur: None,
        id: Some(task_id),
        bp: None,
    }
}

/// The complete span of a resume from `start_ts` to `end_ts`.
pub open spec fn complete_record(name: Seq<char>, tid: u32, start_ts: u64, end_ts: u64) -> RecordView {
    RecordView {
        cat: Category::Polling,
        name,
        ph: Phase::Complete,
        pid: PROCESS_ID,
        tid,
        ts: start_ts,
        dur: Some((end_ts - start_ts) as u64),
        id: None,
        bp: None,
    }
}

/// The records of one resume, in the order they are written.
pub open spec fn poll_records(
    name: Seq<char>,
    task_id: u64,
    tid: u32,
    start_ns: u64,
    end_ns: u64,
    first_time: bool,
    last_time: bool,
) -> Seq<RecordView> {
    let start_ts = micros(start_ns);
    let end_ts = micros(end_ns);
    (if first_time { Seq::empty() } else { seq![link_record(name, task_id, Phase::FlowEnd, tid, start_ts)] })
        + seq![complete_record(name, tid, start_ts, end_ts)]
        + (if last_time { Seq::empty() } else { seq![link_record(name, task_id, Phase::FlowStart, tid, end_ts)] })
}

fn link(task_name: &str, task_id: u64, ph: Phase, tid: u32, ts: u64) -> (r: Record)
    ensures
        r@ == link_record(task_name@, task_id, ph, tid, ts),
{
    Record {
        cat: Category::Polling,
        name: task_name.to_owned(),
        ph,
        pid: PROCESS_ID,
        tid,
        ts,
        dur: None,
        id: Some(task_id),
        bp: None,
    }
}

/// The records of one resume of a task, from `start_ns` to `end_ns` on thread `tid`;
/// `first_time` on the task's first resume, `last_time` if it completed in this one.
pub fn log_poll(
    task_name: &str,
    task_id: u64,
    tid: u32,
    start_ns: u64,
    end_ns: u64,
    first_time: bool,
    last_time: bool,
) -> (r: Vec<Record>)
    requires
        start_ns <= end_ns,
    ensures
        records_view(r@) == poll_records(task_name@, task_id, tid, start_ns, end_ns, first_time, last_time),
{
    let start_ts = start_ns / 1000;
    let end_ts = end_ns / 1000;
    assert(start_ts <= end_ts) by (nonlinear_arith)
        requires
            start_ns <= end_ns,
            start_ts == start_ns / 1000,
            end_ts == end_ns / 1000,
    ;
    let mut out: Vec<Record> = Vec::new();
    if !first_time {
        out.push(link(task_name, task_id, Phase::FlowEnd, tid, start_ts));
    }
    out.push(Record {
        cat: Category::Polling,
        name: task_name.to_owned(),
        ph: Phase::Complete,
        pid: PROCESS_ID,
        tid,
        ts: start_ts,
        dur: Some(end_ts - start_ts),
        id: None,
        bp: None,
    });
    if !last_time {
        out.push(link(task_name, task_id, Phase::FlowStart, tid, end_ts));
    }
    assert(records_view(out@) =~= poll_records(task_name@, task_id, tid, start_ns, end_ns, first_time, last_time));
    out
}

/// The record of a call to a wake callback of the task named `task_name`, made on thread
/// `tid` at `now_ns`.
pub fn log_wake_up(task_name: &str, task_id: u64, tid: u32, now_ns: u64) -> (r: Record)
    ensures
        r@ == wake_up_record(task_name@, tid, now_ns),
{
    crate::log_out::log_wake_up(task_name, task_id, tid, now_ns)
}

} // verus!
