//! The wall clock, behind a trusted wrapper.
//!
//! The analyzers themselves are deterministic: every step takes the time as a
//! plain argument, so their contracts hold for every reading. This wrapper
//! exists for the places where a value is merely stamped with the current
//! time (alert and store timestamps); nothing is proved about the value a
//! reading returns, since the clock can return anything.

use vstd::prelude::*;

verus! {

/// Relies on chrono's `Utc::now` and `DateTime::to_rfc3339`: the current
/// wall-clock time rendered as an RFC 3339 string. No contract is placed on
/// the reading.
#[verifier::external_body]
pub fn now_rfc3339() -> String {
    chrono::Utc::now().to_rfc3339()
}

} // verus!
