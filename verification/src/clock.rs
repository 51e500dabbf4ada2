//! Reading the time.
//!
//! A reading depends on when it is taken, so next to nothing is claimed of it;
//! what is done with a reading stands in functions that take it as an argument.
use std::time::Instant;
use vstd::prelude::*;

verus! {

#[verifier::external_type_specification]
#[verifier::external_body]
pub struct ExInstant(std::time::Instant);

/// `std::time::Instant::now`: the present instant. Nothing is claimed of it.
#[verifier::external_body]
pub(crate) fn present() -> (instant: Instant) {
    Instant::now()
}

/// Whether a call that asked for the time since `origin` was made and returned
/// `nanos`.
pub uninterp spec fn read_since(origin: Instant, nanos: u128) -> bool;

/// `std::time::Instant::elapsed`, in nanoseconds. How much time has passed
/// depends on when it is asked, so only the call itself is recorded.
#[verifier::external_body]
pub(crate) fn nanos_since(origin: &Instant) -> (nanos: u128)
    ensures
        read_since(*origin, nanos),
{
    origin.elapsed().as_nanos()
}

/// Whether a call that asked for the time of day was made and returned
/// `seconds`.
pub uninterp spec fn read_unix(seconds: i64) -> bool;

/// `chrono::Utc::now`, as seconds since 1970. Where there is a system clock,
/// chrono refuses by a panic one that stands before 1970, or after the years
/// that it knows, so the seconds are not negative. Beyond that only the call
/// itself is recorded.
#[verifier::external_body]
pub(crate) fn unix_seconds() -> (seconds: i64)
    ensures
        0 <= seconds,
        read_unix(seconds),
{
    chrono::Utc::now().timestamp()
}

} // verus!
