//! When the trace output rotates, and what each file then holds.
//!
//! Records go to a live file. When a record comes at or after the rotation deadline, the live
//! file is first archived under a name with the process number and a sequence number, a fresh
//! live file is started, and the deadline moves on by the rotation interval. The caller holds
//! the state behind one lock and carries out, for each record, the action that `write_record`
//! returns: so a record never straddles two files.
//!
//! The files' contents are modelled as the entries (time and bytes) written to them.

use vstd::prelude::*;
use vstd::string::StringSliceAdditionalSpecFns;
use crate::record::{decimal, push_decimal};

verus! {

/// The name of the live file in the output directory.
pub const LIVE_FILE_NAME: &'static str = "profile.json";

/// What a fresh live file starts with.
pub const FILE_HEADER: &'static str = "[\n";

/// The interval at which the output rotates, in nanoseconds: thirty seconds.
pub const LOGS_ROTATION_NS: u64 = 30_000_000_000;

/// A record as written: when, and its bytes.
pub ghost struct Entry {
    pub time: u64,
    pub bytes: Seq<u8>,
}

/// What the caller does with a record.
#[derive(Debug, Clone, PartialEq, Eq)]
pub enum WriteAction {
    /// Append the record to the live file.
    Append,
    /// Flush the live file, rename it to `archive_name`, create a fresh live file that starts
    /// with `FILE_HEADER`, then append the record to it.
    Rotate { archive_name: Vec<u8> },
}

/// The state of the output, as a model.
pub ghost struct OutputView {
    pub process_id: u32,
    pub next_filename_suffix: u32,
    pub next_rotation: u64,
    pub rotation_interval: u64,
    /// The time of the latest write, or of the creation.
    pub clock: u64,
    /// The archived files, oldest first.
    pub archives: Seq<Seq<Entry>>,
    /// The live file.
    pub live: Seq<Entry>,
}

/// The name of the archive with sequence number `suffix` of process `process_id`:
/// `profile.<process_id>.<suffix>.json`.
pub open spec fn archive_name(process_id: u32, suffix: u32) -> Seq<u8> {
    "profile.".spec_bytes() + decimal(process_id as nat) + ".".spec_bytes()
        + decimal(suffix as nat) + ".json".spec_bytes()
}

/// The state of a fresh output of process `process_id`, started at `now`.
pub open spec fn fresh_output(process_id: u32, now: u64, rotation_interval: u64) -> OutputView {
    OutputView {
        process_id,
        next_filename_suffix: 0,
        next_rotation: if now + rotation_interval > u64::MAX { u64::MAX } else { (now + rotation_interval) as u64 },
        rotation_interval,
        clock: now,
        archives: Seq::empty(),
        live: Seq::empty(),
    }
}

/// Whether a write at `now` archives the live file first: the deadline has come and a
/// sequence number is left.
pub open spec fn rotates(v: OutputView, now: u64) -> bool {
    now >= v.next_rotation && v.next_filename_suffix < u32::MAX
}

/// The state after writing `bytes` at `now`.
pub open spec fn step(v: OutputView, now: u64, bytes: Seq<u8>) -> OutputView {
    let e = Entry { time: now, bytes };
    if rotates(v, now) {
        OutputView {
            next_filename_suffix: (v.next_filename_suffix + 1) as u32,
            next_rotation: if v.next_rotation + v.rotation_interval > u64::MAX {
                u64::MAX
            } else {
                (v.next_rotation + v.rotation_interval) as u64
            },
            clock: now,
            archives: v.archives.push(v.live),
            live: seq![e],
            ..v
        }
    } else {
        OutputView { clock: now, live: v.live.push(e), ..v }
    }
}

/// The state after writing `writes` in order.
pub open spec fn run(v: OutputView, writes: Seq<Entry>) -> OutputView
    decreases writes.len(),
{
    if writes.len() == 0 {
        v
    } else {
        let w = writes.last();
        step(run(v, writes.drop_last()), w.time, w.bytes)
    }
}

/// The entries of `files`, file after file.
pub open spec fn concat_files(files: Seq<Seq<Entry>>) -> Seq<Entry>
    decreases files.len(),
{
    if files.len() == 0 {
        Seq::empty()
    } else {
        concat_files(files.drop_last()) + files.last()
    }
}

/// Every entry in the output: the archives, oldest first, then the live file.
pub open spec fn contents(v: OutputView) -> Seq<Entry> {
    concat_files(v.archives) + v.live
}

/// The times of `writes` never go back, and none is before `from`.
pub open spec fn times_from(from: u64, writes: Seq<Entry>) -> bool {
    &&& forall|i: int| 0 <= i < writes.len() ==> from <= #[trigger] writes[i].time
    &&& forall|i: int, j: int| 0 <= i < j < writes.len() ==> #[trigger] writes[i].time <= #[trigger] writes[j].time
}

/// Every two entries of the live file are less than the rotation interval apart.
pub open spec fn live_age_bounded(v: OutputView) -> bool {
    forall|i: int, j: int|
        0 <= i < j < v.live.len() ==> #[trigger] v.live[j].time - #[trigger] v.live[i].time < v.rotation_interval
}

/// What holds between writes whose times do not go back.
pub open spec fn age_inv(v: OutputView) -> bool {
    &&& forall|i: int, j: int| 0 <= i < j < v.live.len() ==> #[trigger] v.live[i].time <= #[trigger] v.live[j].time
    &&& forall|i: int| 0 <= i < v.live.len() ==> #[trigger] v.live[i].time <= v.clock
    &&& forall|i: int| 0 <= i < v.live.len() ==> #[trigger] v.live[i].time < v.next_rotation || v.live.len() == 1
    &&& v.live.len() > 0 ==> v.live[0].time + v.rotation_interval >= v.next_rotation
    &&& v.clock + v.rotation_interval >= v.next_rotation
}

/// The rotating output.
pub struct OutputState {
    process_id: u32,
    next_filename_suffix: u32,
    next_rotation: u64,
    rotation_interval: u64,
    clock: Ghost<u64>,
    archives: Ghost<Seq<Seq<Entry>>>,
    live: Ghost<Seq<Entry>>,
}

impl View for OutputState {
    type V = OutputView;

    closed spec fn view(&self) -> OutputView {
        OutputView {
            process_id: self.process_id,
            next_filename_suffix: self.next_filename_suffix,
            next_rotation: self.next_rotation,
            rotation_interval: self.rotation_interval,
            clock: self.clock@,
            archives: self.archives@,
            live: self.live@,
        }
    }
}

impl OutputState {
    /// The output of process `process_id`, with a fresh live file at `now`, rotating every
    /// `rotation_interval` nanoseconds.
    pub fn new(process_id: u32, now: u64, rotation_interval: u64) -> (r: OutputState)
        ensures
            r@ == fresh_output(process_id, now, rotation_interval),
    {
        OutputState {
            process_id,
            next_filename_suffix: 0,
            next_rotation: now.saturating_add(rotation_interval),
            rotation_interval,
            clock: Ghost(now),
            archives: Ghost(Seq::empty()),
            live: Ghost(Seq::empty()),
        }
    }

    /// Decides what to do with the record `serialized`, written at `now`, and takes note of
    /// it. A rotation comes first when the deadline has come and a sequence number is left.
    pub fn write_record(&mut self, now: u64, serialized: &[u8]) -> (r: WriteAction)
        ensures
            final(self)@ == step(old(self)@, now, serialized@),
            rotates(old(self)@, now) ==> (r matches WriteAction::Rotate { archive_name: n }
                && n@ == archive_name(old(self)@.process_id, old(self)@.next_filename_suffix)),
            !rotates(old(self)@, now) ==> r == WriteAction::Append,
    {
        let ghost e = Entry { time: now, bytes: serialized@ };
        let ghost old_live = self.live@;
        self.clock = Ghost(now);
        if now >= self.next_rotation && self.next_filename_suffix < u32::MAX {
            let name = archive_file_name(self.process_id, self.next_filename_suffix);
            self.next_filename_suffix = self.next_filename_suffix + 1;
            self.next_rotation = self.next_rotation.saturating_add(self.rotation_interval);
            self.archives = Ghost(self.archives@.push(old_live));
            let ghost fresh: Seq<Entry> = seq![e];
            self.live = Ghost(fresh);
            WriteAction::Rotate { archive_name: name }
        } else {
            self.live = Ghost(old_live.push(e));
            WriteAction::Append
        }
    }
}

/// Writes `profile.<process_id>.<suffix>.json`.
pub fn archive_file_name(process_id: u32, suffix: u32) -> (r: Vec<u8>)
    ensures
        r@ == archive_name(process_id, suffix),
{
    let mut out: Vec<u8> = Vec::new();
    crate::record::push_str(&mut out, "profile.");
    push_decimal(&mut out, process_id as u64);
    crate::record::push_str(&mut out, ".");
    push_decimal(&mut out, suffix as u64);
    crate::record::push_str(&mut out, ".json");
    assert(out@ =~= archive_name(process_id, suffix));
    out
}

/// A write adds its entry after all others.
proof fn lemma_step_contents(v: OutputView, now: u64, bytes: Seq<u8>)
    ensures
        contents(step(v, now, bytes)) == contents(v).push(Entry { time: now, bytes }),
{
    let e = Entry { time: now, bytes };
    if rotates(v, now) {
        assert(v.archives.push(v.live).drop_last() =~= v.archives);
        assert(contents(step(v, now, bytes)) =~= contents(v).push(e));
    } else {
        assert(contents(step(v, now, bytes)) =~= contents(v).push(e));
    }
}

/// Every record written appears in the output exactly once, in the order written: the
/// archives, oldest first, followed by the live file, hold what they held before and then
/// the new records, none lost and none repeated.
pub proof fn lemma_no_record_lost_or_repeated(v: OutputView, writes: Seq<Entry>)
    ensures
        contents(run(v, writes)) == contents(v) + writes,
    decreases writes.len(),
{
    if writes.len() == 0 {
        assert(contents(v) + writes =~= contents(v));
    } else {
        let w = writes.last();
        lemma_no_record_lost_or_repeated(v, writes.drop_last());
        lemma_step_contents(run(v, writes.drop_last()), w.time, w.bytes);
        assert(contents(v) + writes =~= (contents(v) + writes.drop_last()).push(w));
    }
}

/// A write at a time not before the previous one keeps `age_inv`, unless the sequence
/// numbers are spent.
proof fn lemma_step_age_inv(v: OutputView, now: u64, bytes: Seq<u8>)
    requires
        age_inv(v),
        now >= v.clock,
        v.next_filename_suffix < u32::MAX,
    ensures
        age_inv(step(v, now, bytes)),
        step(v, now, bytes).next_filename_suffix <= v.next_filename_suffix + 1,
        step(v, now, bytes).rotation_interval == v.rotation_interval,
        step(v, now, bytes).clock == now,
{
    let s = step(v, now, bytes);
    if !rotates(v, now) {
        assert(s.live == v.live.push(Entry { time: now, bytes }));
        assert forall|i: int| 0 <= i < s.live.len() implies #[trigger] s.live[i].time < s.next_rotation || s.live.len() == 1 by {
            if i < v.live.len() {
                assert(s.live[i] == v.live[i]);
            }
        }
        assert forall|i: int, j: int| 0 <= i < j < s.live.len() implies #[trigger] s.live[i].time <= #[trigger] s.live[j].time by {
            assert(s.live[i] == v.live[i]);
            if j < v.live.len() {
                assert(s.live[j] == v.live[j]);
            }
        }
        assert forall|i: int| 0 <= i < s.live.len() implies #[trigger] s.live[i].time <= s.clock by {
            if i < v.live.len() {
                assert(s.live[i] == v.live[i]);
            }
        }
        if v.live.len() > 0 {
            assert(s.live[0] == v.live[0]);
        }
    }
}

/// The inner part of the age bound: under `age_inv`, entries of the live file are less
/// than the interval apart.
proof fn lemma_age_inv_bounds(v: OutputView)
    requires
        age_inv(v),
    ensures
        live_age_bounded(v),
{
    assert forall|i: int, j: int| 0 <= i < j < v.live.len() implies #[trigger] v.live[j].time - #[trigger] v.live[i].time < v.rotation_interval by {
        assert(v.live[0].time <= v.live[i].time) by {
            if i > 0 {
                assert(v.live[0].time <= v.live[i].time);
            }
        }
        assert(v.live[j].time < v.next_rotation);
    }
}

/// `age_inv` holds after writes whose times do not go back, while sequence numbers last.
proof fn lemma_age_inv_run(v: OutputView, writes: Seq<Entry>)
    requires
        age_inv(v),
        times_from(v.clock, writes),
        v.next_filename_suffix + writes.len() < u32::MAX,
    ensures
        age_inv(run(v, writes)),
        live_age_bounded(run(v, writes)),
        run(v, writes).next_filename_suffix <= v.next_filename_suffix + writes.len(),
        run(v, writes).rotation_interval == v.rotation_interval,
        writes.len() > 0 ==> run(v, writes).clock == writes.last().time,
        writes.len() == 0 ==> run(v, writes).clock == v.clock,
    decreases writes.len(),
{
    if writes.len() > 0 {
        let w = writes.last();
        let before = writes.drop_last();
        assert(times_from(v.clock, before)) by {
            assert forall|i: int| 0 <= i < before.len() implies v.clock <= #[trigger] before[i].time by {
                assert(before[i] == writes[i]);
            }
            assert forall|i: int, j: int| 0 <= i < j < before.len() implies #[trigger] before[i].time <= #[trigger] before[j].time by {
                assert(before[i] == writes[i]);
                assert(before[j] == writes[j]);
            }
        }
        lemma_age_inv_run(v, before);
        let prev = run(v, before);
        assert(w.time >= prev.clock) by {
            if before.len() > 0 {
                assert(before.last() == writes[writes.len() - 2]);
            } else {
                assert(writes[0] == w);
            }
        }
        lemma_step_age_inv(prev, w.time, w.bytes);
    }
    lemma_age_inv_bounds(run(v, writes));
}

/// The live file never spans the rotation interval: on an output started at `start`, after
/// writes whose times do not go back and are not before `start`, any two records of the live
/// file were written less than the interval apart. This holds while sequence numbers are
/// left for the rotations.
pub proof fn lemma_live_file_age(process_id: u32, start: u64, rotation_interval: u64, writes: Seq<Entry>)
    requires
        times_from(start, writes),
        writes.len() < u32::MAX,
    ensures
        live_age_bounded(run(fresh_output(process_id, start, rotation_interval), writes)),
{
    lemma_age_inv_run(fresh_output(process_id, start, rotation_interval), writes);
}

} // verus!
