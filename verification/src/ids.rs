//! Freshly generated record identifiers and completion timestamps. Both
//! come from outside sources (randomness and the clock), so their contracts
//! state only what holds of every outcome.

use vstd::prelude::*;

verus! {

/// Relies on uuid::Uuid::new_v4 and its Display form: a random version-4
/// UUID rendered hyphenated, which is always 36 characters. Nothing more is
/// promised: the value is random.
#[verifier::external_body]
pub(crate) fn fresh_id() -> (r: String)
    ensures
        r@.len() == 36,
{
    uuid::Uuid::new_v4().to_string()
}

/// Relies on chrono::Utc::now and DateTime::timestamp: the current time as
/// whole seconds since the epoch. Nothing is promised of the value: it is
/// read from the clock.
#[verifier::external_body]
pub(crate) fn now_seconds() -> i64 {
    chrono::Utc::now().timestamp()
}

} // verus!
