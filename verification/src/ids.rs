//! Identifier generation: request ids and upload ids are random UUIDs.

use vstd::prelude::*;

verus! {

/// Relies on uuid::Uuid::new_v4 and uuid::Uuid::to_string: a fresh random
/// UUID rendered in the hyphenated textual form, which is 36 characters.
/// Nothing can be promised about which id comes back.
#[verifier::external_body]
pub fn new_uuid() -> (r: String)
    ensures
        r@.len() == 36,
{
    uuid::Uuid::new_v4().to_string()
}

} // verus!
