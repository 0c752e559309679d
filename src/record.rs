//! Trace records in the trace-event format, and their JSON text.
//!
//! A record is written as one JSON object followed by `,\n`. The name of the task is the one
//! free-form string in it; `serde_json` writes it as a JSON string. Everything else in the object is
//! fixed text, a phase code, or a decimal number.

use vstd::prelude::*;
use vstd::string::StringSliceAdditionalSpecFns;
use vstd::utf8::encode_utf8;

verus! {

/// What a record is about.
#[derive(Debug, Clone, Copy, PartialEq, Eq, Structural)]
pub enum Category {
    /// A resume of a task (`"polling"`).
    Polling,
    /// A wake callback of a task was invoked (`"wakeup"`).
    Wakeup,
}

/// The kind of a record.
#[derive(Debug, Clone, Copy, PartialEq, Eq, Structural)]
pub enum Phase {
    /// A span begins (`"B"`).
    Begin,
    /// A span ends (`"E"`).
    End,
    /// A span with its duration (`"X"`).
    Complete,
    /// A flow starts (`"s"`).
    FlowStart,
    /// A flow goes on (`"t"`).
    FlowStep,
    /// A flow ends (`"f"`).
    FlowEnd,
    /// Something happened at one instant (`"i"`).
    Instant,
}

/// Where a flow record attaches: to the span that encloses it (`"e"`).
#[derive(Debug, Clone, Copy, PartialEq, Eq, Structural)]
pub enum BindingPoint {
    Enclosing,
}

/// One trace record.
#[derive(Debug, Clone, PartialEq, Eq)]
pub struct Record {
    pub cat: Category,
    pub name: String,
    pub ph: Phase,
    pub pid: u32,
    pub tid: u32,
    /// Microseconds since the reference instant.
    pub ts: u64,
    pub dur: Option<u64>,
    pub id: Option<u64>,
    pub bp: Option<BindingPoint>,
}

/// A record with its name as a sequence of characters.
pub ghost struct RecordView {
    pub cat: Category,
    pub name: Seq<char>,
    pub ph: Phase,
    pub pid: u32,
    pub tid: u32,
    pub ts: u64,
    pub dur: Option<u64>,
    pub id: Option<u64>,
    pub bp: Option<BindingPoint>,
}

impl View for Record {
    type V = RecordView;

    open spec fn view(&self) -> RecordView {
        RecordView {
            cat: self.cat,
            name: self.name@,
            ph: self.ph,
            pid: self.pid,
            tid: self.tid,
            ts: self.ts,
            dur: self.dur,
            id: self.id,
            bp: self.bp,
        }
    }
}

/// The views of a sequence of records.
pub open spec fn records_view(rs: Seq<Record>) -> Seq<RecordView> {
    rs.map_values(|r: Record| r@)
}

/// A lowercase hexadecimal digit of `d < 16`.
pub open spec fn hex_digit(d: u8) -> u8 {
    if d < 10 { (48 + d) as u8 } else { (87 + d) as u8 }
}

/// How one byte of a string's UTF-8 encoding is written inside a JSON string: `"` and `\`
/// with a backslash; backspace, tab, line feed, form feed and carriage return as `\b`,
/// `\t`, `\n`, `\f`, `\r`; other bytes below 0x20 as `\u00` and two lowercase hex digits;
/// every other byte as it is.
pub open spec fn json_escape_byte(b: u8) -> Seq<u8> {
    if b == 0x22 {
        seq![0x5cu8, 0x22u8]
    } else if b == 0x5c {
        seq![0x5cu8, 0x5cu8]
    } else if b == 0x08 {
        seq![0x5cu8, 0x62u8]
    } else if b == 0x09 {
        seq![0x5cu8, 0x74u8]
    } else if b == 0x0a {
        seq![0x5cu8, 0x6eu8]
    } else if b == 0x0c {
        seq![0x5cu8, 0x66u8]
    } else if b == 0x0d {
        seq![0x5cu8, 0x72u8]
    } else if b < 0x20 {
        seq![0x5cu8, 0x75u8, 0x30u8, 0x30u8, hex_digit(b / 16), hex_digit(b % 16)]
    } else {
        seq![b]
    }
}

/// The bytes `bs`, each escaped.
pub open spec fn json_escaped(bs: Seq<u8>) -> Seq<u8>
    decreases bs.len(),
{
    if bs.len() == 0 {
        Seq::empty()
    } else {
        json_escaped(bs.drop_last()) + json_escape_byte(bs.last())
    }
}

/// The JSON string of `s`: its UTF-8 encoding escaped, between double quotes.
pub open spec fn json_string_of(s: Seq<char>) -> Seq<u8> {
    seq![0x22u8] + json_escaped(encode_utf8(s)) + seq![0x22u8]
}

/// Relies on `serde_json::to_vec` for a `str`: it writes the string quoted and escaped by
/// its escape table into a `Vec`, which cannot fail.
#[verifier::external_body]
fn json_string(s: &str) -> (r: Option<Vec<u8>>)
    ensures
        r is Some,
        r matches Some(v) ==> v@ == json_string_of(s@),
{
    serde_json::to_vec(s).ok()
}

/// The decimal digits of `n`, most significant first, without leading zeros.
pub open spec fn decimal(n: nat) -> Seq<u8>
    decreases n,
{
    if n < 10 {
        seq![(48 + n) as u8]
    } else {
        decimal(n / 10).push((48 + n % 10) as u8)
    }
}

/// The text of a category, quoted.
pub open spec fn category_json(c: Category) -> Seq<u8> {
    match c {
        Category::Polling => "\"polling\"".spec_bytes(),
        Category::Wakeup => "\"wakeup\"".spec_bytes(),
    }
}

/// The one-letter code of a phase, quoted.
pub open spec fn phase_json(p: Phase) -> Seq<u8> {
    match p {
        Phase::Begin => "\"B\"".spec_bytes(),
        Phase::End => "\"E\"".spec_bytes(),
        Phase::Complete => "\"X\"".spec_bytes(),
        Phase::FlowStart => "\"s\"".spec_bytes(),
        Phase::FlowStep => "\"t\"".spec_bytes(),
        Phase::FlowEnd => "\"f\"".spec_bytes(),
        Phase::Instant => "\"i\"".spec_bytes(),
    }
}

/// An optional number field: absent when `None`.
pub open spec fn optional_field_json(key: Seq<u8>, v: Option<u64>) -> Seq<u8> {
    match v {
        Some(n) => key + decimal(n as nat),
        None => Seq::empty(),
    }
}

/// The JSON object of a record whose name is written as `name_json`.
pub open spec fn record_json(r: RecordView, name_json: Seq<u8>) -> Seq<u8> {
    "{\"cat\":".spec_bytes() + category_json(r.cat)
        + ",\"name\":".spec_bytes() + name_json
        + ",\"ph\":".spec_bytes() + phase_json(r.ph)
        + ",\"pid\":".spec_bytes() + decimal(r.pid as nat)
        + ",\"tid\":".spec_bytes() + decimal(r.tid as nat)
        + ",\"ts\":".spec_bytes() + decimal(r.ts as nat)
        + optional_field_json(",\"dur\":".spec_bytes(), r.dur)
        + optional_field_json(",\"id\":".spec_bytes(), r.id)
        + (if r.bp is Some { ",\"bp\":\"e\"".spec_bytes() } else { Seq::empty() })
        + ",\"arg\":null}".spec_bytes()
}

/// What follows each record in the output.
pub open spec fn record_separator() -> Seq<u8> {
    ",\n".spec_bytes()
}

/// Appends the bytes of `s`.
pub(crate) fn push_str(out: &mut Vec<u8>, s: &str)
    ensures
        final(out)@ == old(out)@ + s.spec_bytes(),
{
    push_bytes(out, s.as_bytes());
}

/// Appends `b`.
fn push_bytes(out: &mut Vec<u8>, b: &[u8])
    ensures
        final(out)@ == old(out)@ + b@,
{
    let ghost start = out@;
    let mut i: usize = 0;
    while i < b.len()
        invariant
            i <= b@.len(),
            out@ == start + b@.subrange(0, i as int),
        decreases b@.len() - i,
    {
        out.push(b[i]);
        i = i + 1;
        assert(out@ =~= start + b@.subrange(0, i as int));
    }
    assert(b@.subrange(0, i as int) =~= b@);
}

/// Appends the decimal digits of `n`.
pub fn push_decimal(out: &mut Vec<u8>, n: u64)
    ensures
        final(out)@ == old(out)@ + decimal(n as nat),
    decreases n,
{
    if n >= 10 {
        push_decimal(out, n / 10);
    }
    out.push((48 + n % 10) as u8);
    assert(out@ =~= old(out)@ + decimal(n as nat));
}

fn push_optional_field(out: &mut Vec<u8>, key: &str, v: Option<u64>)
    ensures
        final(out)@ == old(out)@ + optional_field_json(key.spec_bytes(), v),
{
    match v {
        Some(n) => {
            push_str(out, key);
            push_decimal(out, n);
            assert(out@ =~= old(out)@ + optional_field_json(key.spec_bytes(), v));
        },
        None => {
            assert(out@ =~= old(out)@ + optional_field_json(key.spec_bytes(), v));
        },
    }
}

/// Writes the JSON object of `r`, with `name_json` as the text of its name.
pub fn encode_record(r: &Record, name_json: &[u8]) -> (out: Vec<u8>)
    ensures
        out@ == record_json(r@, name_json@),
{
    let mut out: Vec<u8> = Vec::new();
    push_str(&mut out, "{\"cat\":");
    match r.cat {
        Category::Polling => push_str(&mut out, "\"polling\""),
        Category::Wakeup => push_str(&mut out, "\"wakeup\""),
    }
    push_str(&mut out, ",\"name\":");
    push_bytes(&mut out, name_json);
    push_str(&mut out, ",\"ph\":");
    match r.ph {
        Phase::Begin => push_str(&mut out, "\"B\""),
        Phase::End => push_str(&mut out, "\"E\""),
        Phase::Complete => push_str(&mut out, "\"X\""),
        Phase::FlowStart => push_str(&mut out, "\"s\""),
        Phase::FlowStep => push_str(&mut out, "\"t\""),
        Phase::FlowEnd => push_str(&mut out, "\"f\""),
        Phase::Instant => push_str(&mut out, "\"i\""),
    }
    push_str(&mut out, ",\"pid\":");
    push_decimal(&mut out, r.pid as u64);
    push_str(&mut out, ",\"tid\":");
    push_decimal(&mut out, r.tid as u64);
    push_str(&mut out, ",\"ts\":");
    push_decimal(&mut out, r.ts);
    push_optional_field(&mut out, ",\"dur\":", r.dur);
    push_optional_field(&mut out, ",\"id\":", r.id);
    if r.bp.is_some() {
        push_str(&mut out, ",\"bp\":\"e\"");
    }
    push_str(&mut out, ",\"arg\":null}");
    assert(out@ =~= record_json(r@, name_json@));
    out
}

/// The bytes that go to the output for `r`: its JSON object and the separator. Always
/// `Some`.
pub fn serialize_record(r: &Record) -> (out: Option<Vec<u8>>)
    ensures
        out matches Some(v) && v@ == record_json(r@, json_string_of(r.name@)) + record_separator(),
{
    match json_string(r.name.as_str()) {
        Some(name_json) => {
            let mut out = encode_record(r, name_json.as_slice());
            push_str(&mut out, ",\n");
            Some(out)
        },
        None => None,
    }
}

} // verus!
