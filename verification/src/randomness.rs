use vstd::prelude::*;

verus! {

/// Relies on uuid::Uuid::new_v4 (a random version-4 UUID) and Uuid::as_u128:
/// yields an arbitrary machine-chosen value, different from call to call.
/// Nothing is promised of the result.
#[verifier::external_body]
pub fn random_entropy() -> u64 {
    uuid::Uuid::new_v4().as_u128() as u64
}

/// Relies on uuid::Uuid::new_v4 and its Display form: the hyphenated
/// lower-case rendering of a UUID is exactly 36 characters long.
#[verifier::external_body]
pub fn fresh_uuid_string() -> (r: String)
    ensures
        r@.len() == 36,
{
    uuid::Uuid::new_v4().to_string()
}

} // verus!
