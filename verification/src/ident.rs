//! Fresh identifiers.

use vstd::prelude::*;

verus! {

/// Draws a random version-4 UUID with `uuid::Uuid::new_v4` and prints it in
/// the hyphenated form. Trusted: the text is 36 characters long, which is all
/// that holds of every draw that the library relies on.
#[verifier::external_body]
pub(crate) fn fresh_uuid() -> (r: String)
    ensures
        r@.len() == 36,
{
    uuid::Uuid::new_v4().to_string()
}

} // verus!
