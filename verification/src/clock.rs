//! The monotonic clock of the standard library, read as milliseconds.
use std::time::{Duration, Instant};
use vstd::prelude::*;

verus! {

#[verifier::external_type_specification]
#[verifier::external_body]
pub struct ExInstant(Instant);

/// `Instant::now`: the present moment. Nothing is known of it.
#[verifier::external_body]
pub(crate) fn clock_start() -> (t: Instant) {
    Instant::now()
}

/// `Instant::elapsed`: the time since `since`. Nothing is known of it.
#[verifier::external_body]
pub(crate) fn clock_elapsed(since: &Instant) -> (d: Duration) {
    since.elapsed()
}

/// `Duration::as_millis`: whole milliseconds, cut to 64 bits. Nothing is
/// known of the number.
#[verifier::external_body]
pub(crate) fn duration_millis(d: &Duration) -> (ms: u64) {
    d.as_millis() as u64
}

/// Milliseconds since `since`, whatever the clock says.
pub(crate) fn elapsed_ms(since: &Instant) -> (ms: u64) {
    let d = clock_elapsed(since);
    duration_millis(&d)
}

} // verus!
