use vstd::prelude::*;

verus! {

// The two values the pipeline draws from outside: fresh opaque
// identifiers and the current time. Both are nondeterministic, so their
// contracts state only what holds of every outcome.

/// Relies on `uuid::Uuid::new_v4` and its `Display` form: a fresh random
/// identifier rendered as the 36-character hyphenated form. The value is
/// random; nothing relates two calls.
#[verifier::external_body]
pub(crate) fn fresh_id() -> (r: String)
    ensures
        r@.len() == 36,
{
    uuid::Uuid::new_v4().to_string()
}

/// Relies on `chrono::Utc::now` and its `Display` form: the current UTC
/// time as sortable text. The value depends on the clock; nothing is
/// promised of it.
#[verifier::external_body]
pub(crate) fn now_utc_text() -> (r: String) {
    chrono::Utc::now().to_string()
}

} // verus!
