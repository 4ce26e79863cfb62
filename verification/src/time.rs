//! Elapsed time.

use std::time::{Duration, Instant};

use vstd::prelude::*;

verus! {

/// `std::time::Instant`, carried through as it is.
#[verifier::external_type_specification]
#[verifier::external_body]
pub struct ExInstant(Instant);

/// `std::time::Instant::now`: the present moment. Nothing is claimed of it.
pub assume_specification[ Instant::now ]() -> Instant
;

/// `std::time::Instant::elapsed`: the time since the given moment. Nothing is claimed of it.
pub assume_specification[ Instant::elapsed ](start: &Instant) -> Duration
;

/// `std::time::Duration::as_nanos`: a duration in nanoseconds. Nothing is claimed of it.
pub assume_specification[ Duration::as_nanos ](duration: &Duration) -> u128
;

/// Whether asking for the time since `start`, and for that time in nanoseconds, gave `nanos`.
pub open spec fn nanos_elapsed(start: &Instant, nanos: u128) -> bool {
    exists|elapsed: Duration| #[trigger]
        call_ensures(Instant::elapsed, (start,), elapsed) && call_ensures(
            Duration::as_nanos,
            (&elapsed,),
            nanos,
        )
}

/// The nanoseconds since `start`, modulo 2^64.
pub fn nanos_since(start: &Instant) -> (ns: u64)
    ensures
        exists|nanos: u128| #[trigger]
            nanos_elapsed(start, nanos) && ns == nanos % 0x1_0000_0000_0000_0000,
{
    let elapsed = start.elapsed();
    let nanos: u128 = elapsed.as_nanos();
    assert(nanos_elapsed(start, nanos));
    (nanos % 0x1_0000_0000_0000_0000) as u64
}

} // verus!
