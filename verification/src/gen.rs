use vstd::prelude::*;

verus! {

/// Relies on uuid::Uuid::new_v4 and its hyphenated `Display` form: a fresh
/// random identifier rendered as 32 hex digits and 4 hyphens, 36 characters
/// in all.
#[verifier::external_body]
pub(crate) fn fresh_id() -> (r: String)
    ensures
        r@.len() == 36,
{
    uuid::Uuid::new_v4().to_string()
}

/// Relies on chrono::Utc::now and DateTime::to_rfc3339: the current time
/// rendered in RFC 3339 form, which is never an empty string.
#[verifier::external_body]
pub(crate) fn now_rfc3339() -> (r: String)
    ensures
        r@.len() > 0,
{
    chrono::Utc::now().to_rfc3339()
}

} // verus!
