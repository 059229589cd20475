//! Trusted bindings to host facilities: hardware parallelism, the
//! process-local random generator, and the wall clock.
//!
//! Each function wraps exactly one outside call; everything stated about
//! a result is what the wrapped crate documents.

use vstd::prelude::*;

verus! {

/// Relies on `num_cpus::get`: the number of logical CPUs available to
/// this process; its documentation promises at least 1.
#[verifier::external_body]
pub(crate) fn cpu_count() -> (r: usize)
    ensures
        r >= 1,
{
    num_cpus::get()
}

/// Relies on `rand`'s `random_range` over the thread-local generator:
/// a uniformly sampled index below `n`. The call panics on an empty
/// range, so `n` must be positive; nothing more can be promised of a
/// random value than its range.
#[verifier::external_body]
pub(crate) fn random_index(n: usize) -> (r: usize)
    requires
        n > 0,
    ensures
        r < n,
{
    rand::RngExt::random_range(&mut rand::rng(), 0..n)
}

/// Relies on `chrono`'s `Utc::now().timestamp_millis()`: milliseconds
/// since the Unix epoch. The value depends on the wall clock, so
/// nothing is promised of it.
#[verifier::external_body]
pub(crate) fn now_epoch_millis() -> i64 {
    chrono::Utc::now().timestamp_millis()
}

/// A clock reading clamped to the non-negative range the registry works in.
pub fn clamp_epoch_millis(t: i64) -> (r: u64)
    ensures
        t >= 0 ==> r == t as u64,
        t < 0 ==> r == 0u64,
{
    if t >= 0 {
        t as u64
    } else {
        0
    }
}

/// The current wall-clock reading as non-negative epoch milliseconds.
pub fn now_millis() -> (r: u64) {
    clamp_epoch_millis(now_epoch_millis())
}

} // verus!
