//! The monotonic clock, reached through `std::time::Instant`.

use vstd::prelude::*;
use std::time::Instant;

verus! {

/// A point in time of the monotonic clock; opaque here.
#[verifier::external_type_specification]
#[verifier::external_body]
pub struct ExInstant(Instant);

/// Nanoseconds since `t`.
///
/// Trusted: calls `Instant::elapsed` on `t` and converts the `Duration`
/// to whole nanoseconds with `as_nanos`; nothing is stated of the
/// result, which depends on the clock.
#[verifier::external_body]
pub(crate) fn elapsed_nanos(t: &Instant) -> (r: u128) {
    t.elapsed().as_nanos()
}

} // verus!
