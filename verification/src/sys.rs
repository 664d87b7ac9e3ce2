//! Trusted access to process-ambient facts: fresh identifiers and the
//! clock. Every result here depends on state outside the program, so the
//! contracts promise only what holds of every outcome; callers must work
//! for any value handed back.

use vstd::prelude::*;

verus! {

/// Relies on uuid::Uuid::now_v7 and its `Display` rendering, which the
/// crate fixes as the hyphenated form of exactly 36 characters. The value
/// itself depends on the clock and on random state, so nothing more is
/// promised about it.
#[verifier::external_body]
pub(crate) fn fresh_id() -> (r: String)
    ensures
        r@.len() == 36,
{
    uuid::Uuid::now_v7().to_string()
}

/// Relies on chrono::Utc::now and DateTime::timestamp_micros: microseconds
/// since the Unix epoch. The value depends on the clock, so nothing is
/// promised about it.
#[verifier::external_body]
pub(crate) fn utc_now_micros() -> i64 {
    chrono::Utc::now().timestamp_micros()
}

/// Relies on chrono::Utc::now and Datelike::year: the calendar year of the
/// current instant in UTC. The value depends on the clock, so nothing is
/// promised about it.
#[verifier::external_body]
pub(crate) fn utc_year() -> i32 {
    chrono::Datelike::year(&chrono::Utc::now())
}

/// Relies on chrono::Local::now and Datelike::year: the calendar year of
/// the current instant in the machine's time zone. The value depends on
/// the clock and the configured zone, so nothing is promised about it.
#[verifier::external_body]
pub(crate) fn local_year() -> i32 {
    chrono::Datelike::year(&chrono::Local::now())
}

} // verus!
