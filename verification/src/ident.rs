//! Identifiers for jobs and records, drawn by `uuid`.

use vstd::prelude::*;

verus! {

/// The length of an identifier: 32 hexadecimal digits and 4 hyphens.
pub const ID_LENGTH: usize = 36;

/// `uuid::Uuid::new_v4` printed by `to_string`: a random identifier in the
/// hyphenated form, which has 36 characters. Chance decides which.
#[verifier::external_body]
fn draw_id() -> (id: String)
    ensures
        id@.len() == ID_LENGTH,
{
    uuid::Uuid::new_v4().to_string()
}

/// A new random identifier.
pub fn fresh_id() -> (id: String)
    ensures
        id@.len() == ID_LENGTH,
{
    draw_id()
}

} // verus!
