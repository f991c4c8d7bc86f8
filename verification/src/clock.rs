//! The monotonic clock that a controller reads when it is not handed the
//! time.
//!
//! The three wrappers below call into `std::time`. Their bodies are not
//! verified, and nothing is claimed of what they return: a reading of the
//! clock may be any value.

use vstd::prelude::*;
use std::time::{Duration, Instant};

verus! {

/// A point on the monotonic clock; opaque to the verifier.
#[verifier::external_type_specification]
#[verifier::external_body]
pub struct ExInstant(std::time::Instant);

/// The present point on the monotonic clock, from `Instant::now`. Nothing is
/// claimed of it.
#[verifier::external_body]
pub(crate) fn clock_now() -> (now: Instant) {
    Instant::now()
}

/// The time that has passed since `earlier`, from `Instant::elapsed`, which
/// gives zero where the clock reads earlier than `earlier`. Nothing is
/// claimed of it.
#[verifier::external_body]
pub(crate) fn clock_elapsed(earlier: &Instant) -> (elapsed: Duration) {
    earlier.elapsed()
}

/// The whole milliseconds of `span`, from `Duration::as_millis`. Nothing is
/// claimed of the number.
#[verifier::external_body]
pub(crate) fn whole_millis(span: &Duration) -> (millis: u128) {
    span.as_millis()
}

/// Milliseconds that have passed since `epoch`, held at the largest `u64`
/// where they exceed it.
pub(crate) fn millis_since(epoch: &Instant) -> (millis: u64) {
    let span = clock_elapsed(epoch);
    let millis = whole_millis(&span);
    if millis > u64::MAX as u128 {
        u64::MAX
    } else {
        millis as u64
    }
}

} // verus!
