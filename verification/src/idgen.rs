//! Trusted bridge to fresh identities and the clock.

use vstd::prelude::*;

verus! {

/// Relies on uuid::Uuid::new_v4: draws a fresh random version-4 UUID,
/// carried as its 128-bit value. The value is random, so nothing is promised
/// of it.
#[verifier::external_body]
pub(crate) fn fresh_uuid_value() -> u128 {
    uuid::Uuid::new_v4().as_u128()
}

/// Relies on chrono::Utc::now: the current wall-clock time, in milliseconds
/// since the Unix epoch. The value depends on the clock, so nothing is
/// promised of it. Caution: chrono's `Utc::now` itself aborts on a machine
/// whose clock is set before 1970; no argument exists that a `requires`
/// could exclude, so that environment failure is accepted, like exhausted
/// memory.
#[verifier::external_body]
pub(crate) fn now_millis() -> i64 {
    chrono::Utc::now().timestamp_millis()
}

} // verus!
