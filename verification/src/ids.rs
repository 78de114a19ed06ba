//! Sources of correlation identifiers and arrival timestamps.

use vstd::prelude::*;

verus! {

/// Relies on uuid::Uuid::new_v4 and its Display form: a fresh random
/// version-4 UUID rendered hyphenated, which is always 36 characters long.
/// The value is random, so nothing more is promised of it.
#[verifier::external_body]
pub(crate) fn new_correlation_id() -> (r: String)
    ensures
        r@.len() == 36,
{
    uuid::Uuid::new_v4().to_string()
}

/// Relies on chrono::Utc::now and DateTime::timestamp: the number of
/// non-leap seconds since the Unix epoch. The value depends on the clock,
/// so nothing is promised of it.
#[verifier::external_body]
pub(crate) fn current_timestamp() -> (r: i64)
{
    chrono::Utc::now().timestamp()
}

} // verus!
