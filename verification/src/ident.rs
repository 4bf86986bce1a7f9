//! Fresh identifiers and timestamps: the two ambient inputs the store needs.
//! Both are drawn behind trusted wrappers; the logic never assumes anything
//! of a timestamp, and of an identifier only its length.

use vstd::prelude::*;

verus! {

/// Relies on uuid's `Uuid::new_v4` with its hyphenated rendering: a freshly
/// drawn random identifier, always 36 characters long.
#[verifier::external_body]
pub fn fresh_id() -> (r: String)
    ensures
        r@.len() == 36,
{
    uuid::Uuid::new_v4().to_string()
}

/// Relies on std's `SystemTime`: the present moment as whole seconds since
/// the Unix epoch; nothing is promised of the value.
#[verifier::external_body]
pub fn chrono_timestamp() -> i64 {
    std::time::SystemTime::now()
        .duration_since(std::time::UNIX_EPOCH)
        .unwrap_or_default()
        .as_secs() as i64
}

} // verus!
