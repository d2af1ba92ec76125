//! Identifiers that the client makes up for the records it creates.

use vstd::prelude::*;

verus! {

/// A new random identifier, from `uuid::Uuid::new_v4` and its `to_string`:
/// a version 4 UUID in its hyphenated form, which is 36 characters long.
/// Nothing else is claimed of it: two calls may return anything.
#[verifier::external_body]
pub(crate) fn fresh_id() -> (r: String)
    ensures
        r@.len() == 36,
{
    uuid::Uuid::new_v4().to_string()
}

} // verus!
