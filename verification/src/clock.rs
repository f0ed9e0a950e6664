//! Reading the clock. What these return depends on when they are called,
//! so nothing is stated of which instant they give, only of its form.
use vstd::prelude::*;

verus! {

/// Calls `chrono::Utc::now()` and returns its whole seconds and nanoseconds
/// since the Unix epoch (`timestamp()`, `timestamp_subsec_nanos()`). No
/// value is promised: it is the time of the call. What is claimed is
/// chrono's bound on the nanoseconds (below 2 000 000 000, a leap second
/// counting past 999 999 999).
#[verifier::external_body]
fn utc_now_parts() -> (r: (i64, u32))
    ensures
        r.1 < 2_000_000_000,
{
    let now = chrono::Utc::now();
    (now.timestamp(), now.timestamp_subsec_nanos())
}

/// Calls `chrono::Local::now().naive_local()` and returns that local wall
/// time read as seconds since 1970-01-01 00:00:00. No value is promised: it
/// is the time of the call in the machine's time zone.
#[verifier::external_body]
pub(crate) fn local_now_naive_seconds() -> i64 {
    chrono::Local::now().naive_local().and_utc().timestamp()
}

/// An instant in nanoseconds since the Unix epoch, from its whole seconds
/// and the nanoseconds past them.
pub open spec fn instant_nanos(secs: i64, nanos: u32) -> int {
    secs * 1_000_000_000 + nanos
}

/// The current time, in nanoseconds since the Unix epoch: whole seconds
/// times 10^9 plus the nanoseconds past them (below 2 * 10^9).
pub(crate) fn utc_now_nanos() -> (r: i128)
    ensures
        exists|secs: i64, nanos: u32| nanos < 2_000_000_000 && r == #[trigger] instant_nanos(secs, nanos),
{
    let (secs, nanos) = utc_now_parts();
    let r = secs as i128 * 1_000_000_000 + nanos as i128;
    assert(r == instant_nanos(secs, nanos));
    r
}

} // verus!
