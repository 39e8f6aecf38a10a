//! Fresh random identifiers, drawn from outside generators.

use vstd::prelude::*;

verus! {

/// Relies on nanoid::format with nanoid's URL-safe alphabet: it returns a
/// random identifier of exactly `len` characters, all of them ASCII.
#[verifier::external_body]
pub fn generate_short_id(len: usize) -> (r: String)
    requires
        len >= 1,
    ensures
        r@.len() == len,
{
    nanoid::format(nanoid::rngs::default, &nanoid::alphabet::SAFE, len)
}

/// Relies on uuid::Uuid::new_v4 and uuid's hyphenated Display form: it
/// returns a random identifier of exactly 36 characters.
#[verifier::external_body]
pub fn generate_uuid_string() -> (r: String)
    ensures
        r@.len() == 36,
{
    uuid::Uuid::new_v4().to_string()
}

} // verus!
