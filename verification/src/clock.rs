//! The wall clock, behind trusted declarations.
//!
//! A proposal is stamped with the wall time elapsed since the previous one.
//! Instants and durations are opaque here: nothing can be promised of what
//! the clock returns, and no logic of the library reads the inside of a
//! duration — it is carried through to the state machine.

use vstd::prelude::*;

verus! {

#[verifier::external_type_specification]
#[verifier::external_body]
pub struct ExInstant(std::time::Instant);

/// Relies on `std::time::Instant::now`: the current moment; nothing can be
/// promised of its value.
#[verifier::external_body]
pub(crate) fn instant_now() -> std::time::Instant {
    std::time::Instant::now()
}

/// Relies on `std::time::Instant::elapsed`: the wall time since `i`;
/// nothing can be promised of its value.
#[verifier::external_body]
pub(crate) fn instant_elapsed(i: &std::time::Instant) -> core::time::Duration {
    i.elapsed()
}

/// Relies on `core::time::Duration::ZERO`, the zero-length duration.
#[verifier::external_body]
pub(crate) fn duration_zero() -> core::time::Duration {
    core::time::Duration::ZERO
}

} // verus!
