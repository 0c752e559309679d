use futures_diagnose::common::{MessageData, Task};
use futures_diagnose::ctxt_with_diag::WakeTarget;
use futures_diagnose::fut_with_diag::{start_task, DiagnoseTask, PollError, TaskIds};
use futures_diagnose::record::{Phase, Record};

fn task(name: &str, id: u64) -> Task {
    Task { name: name.to_string(), id }
}

fn resume(t: &mut DiagnoseTask, thread: u32, start: u64, end: u64, ready: bool) -> (Vec<MessageData>, Vec<Record>) {
    let mut msgs = t.begin_poll(thread, start).unwrap();
    let rep = t.end_poll(end, ready).unwrap();
    msgs.extend(rep.messages);
    (msgs, rep.records)
}

#[test]
fn compute_suspends_twice_then_completes() {
    let mut ids = TaskIds::new();
    let (mut t, start) = start_task(&mut ids, "compute".to_string()).unwrap();
    assert_eq!(start, MessageData::TaskStart(task("compute", 0)));
    let (_, r1) = resume(&mut t, 1, 1_000, 2_000, false);
    let (_, r2) = resume(&mut t, 1, 5_000, 6_000, false);
    let (m3, r3) = resume(&mut t, 1, 9_000, 10_000, true);
    let all: Vec<(Phase, u64, Option<u64>)> = r1.iter().chain(r2.iter()).chain(r3.iter()).map(|r| (r.ph, r.ts, r.id)).collect();
    assert_eq!(all, vec![
        (Phase::Begin, 1, None), (Phase::End, 2, None), (Phase::FlowStart, 2, Some(0)),
        (Phase::Begin, 5, None), (Phase::End, 6, None), (Phase::FlowStep, 5, Some(0)),
        (Phase::Begin, 9, None), (Phase::End, 10, None), (Phase::FlowEnd, 9, Some(0)),
    ]);
    assert!(r1.iter().chain(r2.iter()).chain(r3.iter()).all(|r| r.name == "compute"));
    assert_eq!(m3.last(), Some(&MessageData::TaskEnd(task("compute", 0))));
}

#[test]
fn migrations_on_threads_a_b_a() {
    let (mut t, _) = DiagnoseTask::new("m".to_string(), 4);
    let mut migrations = Vec::new();
    for (i, thread) in [10u32, 20, 10].iter().enumerate() {
        let msgs = t.begin_poll(*thread, i as u64).unwrap();
        for m in msgs {
            if let MessageData::PollingThreadChange { previous_thread, new_thread, .. } = m {
                migrations.push((previous_thread, new_thread));
            }
        }
        t.end_poll(i as u64 + 1, i == 2).unwrap();
    }
    assert_eq!(migrations, vec![(10, 20), (20, 10)]);
}

#[test]
fn two_tasks_interleaved_each_well_nested() {
    let mut ids = TaskIds::new();
    let (mut a, _) = start_task(&mut ids, "a".to_string()).unwrap();
    let (mut b, _) = start_task(&mut ids, "b".to_string()).unwrap();
    assert_eq!(a.task_ref().id, 0);
    assert_eq!(b.task_ref().id, 1);
    let mut stream: Vec<Record> = Vec::new();
    stream.extend(resume(&mut a, 1, 0, 1_000, false).1);
    stream.extend(resume(&mut b, 1, 1_000, 2_000, false).1);
    stream.extend(resume(&mut a, 1, 2_000, 3_000, true).1);
    stream.extend(resume(&mut b, 1, 3_000, 4_000, true).1);
    for name in ["a", "b"] {
        let marks: Vec<Phase> = stream.iter().filter(|r| r.name == name && (r.ph == Phase::Begin || r.ph == Phase::End)).map(|r| r.ph).collect();
        assert_eq!(marks, vec![Phase::Begin, Phase::End, Phase::Begin, Phase::End]);
        let times: Vec<u64> = stream.iter().filter(|r| r.name == name && (r.ph == Phase::Begin || r.ph == Phase::End)).map(|r| r.ts).collect();
        assert!(times.windows(2).all(|w| w[0] <= w[1]));
        let flows: Vec<Phase> = stream.iter().filter(|r| r.name == name && r.id.is_some()).map(|r| r.ph).collect();
        assert_eq!(flows, vec![Phase::FlowStart, Phase::FlowEnd]);
    }
}

#[test]
fn one_start_and_one_end_per_completed_task() {
    let mut ids = TaskIds::new();
    let (mut t, start) = start_task(&mut ids, "x".to_string()).unwrap();
    let mut all = vec![start];
    for i in 0..4u64 {
        all.extend(resume(&mut t, 1, i * 10, i * 10 + 5, i == 3).0);
    }
    assert_eq!(all.iter().filter(|m| matches!(m, MessageData::TaskStart(_))).count(), 1);
    assert_eq!(all.iter().filter(|m| matches!(m, MessageData::TaskEnd(_))).count(), 1);
    assert!(matches!(all.first(), Some(MessageData::TaskStart(_))));
    assert!(matches!(all.last(), Some(MessageData::TaskEnd(_))));
    assert_eq!(all[2], MessageData::PollEnd { task: task("x", 0), poll_duration_ns: 5 });
}

#[test]
fn suspended_task_has_no_end() {
    let (mut t, _) = DiagnoseTask::new("s".to_string(), 2);
    let (msgs, _) = resume(&mut t, 1, 0, 10, false);
    assert!(!msgs.iter().any(|m| matches!(m, MessageData::TaskEnd(_))));
}

#[test]
fn resume_after_completion_is_refused() {
    let (mut t, _) = DiagnoseTask::new("done".to_string(), 3);
    resume(&mut t, 1, 0, 10, true);
    assert_eq!(t.begin_poll(1, 20).unwrap_err(), PollError::AlreadyCompleted);
}

#[test]
fn concurrent_resume_is_refused() {
    let (mut t, _) = DiagnoseTask::new("c".to_string(), 3);
    t.begin_poll(1, 0).unwrap();
    assert_eq!(t.begin_poll(2, 1).unwrap_err(), PollError::AlreadyPolling);
}

#[test]
fn end_without_begin_is_refused() {
    let (mut t, _) = DiagnoseTask::new("e".to_string(), 3);
    assert_eq!(t.end_poll(5, false).err(), Some(PollError::NotPolling));
}

#[test]
fn wake_events_carry_the_owner_from_any_clone() {
    let w = WakeTarget::new(task("owner", 11));
    let c = w.cloned().cloned();
    assert_eq!(w.wake_record(1, 1_000).name, "owner");
    assert_eq!(c.wake_record(9, 50_000).name, "owner");
    assert_eq!(c.wake_message(), MessageData::TaskWakeUp { woken_up: task("owner", 11), waker: task("owner", 11) });
}

#[test]
fn task_ids_count_up() {
    let mut ids = TaskIds::new();
    assert_eq!(ids.allocate(), Some(0));
    assert_eq!(ids.allocate(), Some(1));
}
