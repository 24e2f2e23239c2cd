//! Fresh opaque identifiers for new records.

use vstd::prelude::*;

verus! {

/// Relies on `uuid::Uuid::new_v4` and `Uuid`'s `Display` impl: a fresh
/// random version-4 UUID rendered in hyphenated form, 36 characters long.
/// The value is random, so nothing further can be promised about it; the
/// `*_with_id` commands take the id as an argument and carry the exact
/// contracts.
#[verifier::external_body]
pub(crate) fn fresh_id() -> (r: String)
    ensures
        r@.len() == 36,
{
    uuid::Uuid::new_v4().to_string()
}

} // verus!
