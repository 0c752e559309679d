//! Times as nanoseconds since one reference instant.
//!
//! The reference instant is fixed by the caller, once per process, as early as it can; the
//! time from it to an instant (zero for an instant before it) comes as whole seconds and
//! nanoseconds, which `duration_nanos` turns into one count of nanoseconds.

use vstd::prelude::*;

verus! {

/// Nanoseconds in a second.
pub const NANOS_PER_SEC: u64 = 1_000_000_000;

/// `secs` seconds and `subsec_nanos` nanoseconds, in nanoseconds, or `u64::MAX` if that is
/// more.
pub open spec fn nanos_of(secs: u64, subsec_nanos: u32) -> u64 {
    let n = secs * 1_000_000_000 + subsec_nanos;
    if n > u64::MAX { u64::MAX } else { n as u64 }
}

/// A duration of `secs` seconds and `subsec_nanos` nanoseconds, in nanoseconds, saturating at
/// `u64::MAX`.
pub fn duration_nanos(secs: u64, subsec_nanos: u32) -> (r: u64)
    ensures
        r == nanos_of(secs, subsec_nanos),
{
    if secs > u64::MAX / NANOS_PER_SEC {
        assert(secs * 1_000_000_000 > u64::MAX) by (nonlinear_arith)
            requires
                secs > u64::MAX / 1_000_000_000,
        ;
        u64::MAX
    } else {
        assert(secs * 1_000_000_000 <= u64::MAX) by (nonlinear_arith)
            requires
                secs <= u64::MAX / 1_000_000_000,
        ;
        let whole = secs * NANOS_PER_SEC;
        whole.saturating_add(subsec_nanos as u64)
    }
}

} // verus!
