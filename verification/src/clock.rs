//! The monotonic clock that times clicks.

use std::time::Instant;
use vstd::prelude::*;

verus! {

/// `std::time::Instant`, a reading of the monotonic clock; nothing of its
/// inside is known here.
#[verifier::external_type_specification]
#[verifier::external_body]
pub struct ExInstant(Instant);

/// `Instant::now`: the present reading of the monotonic clock. Nothing is
/// claimed of the value.
#[verifier::external_body]
pub(crate) fn start_clock() -> (origin: Instant) {
    Instant::now()
}

/// `Instant::elapsed`: the nanoseconds that have passed since `origin` was
/// read. Nothing is claimed of the value.
#[verifier::external_body]
pub(crate) fn nanos_since(origin: &Instant) -> (nanos: u128) {
    origin.elapsed().as_nanos()
}

} // verus!
