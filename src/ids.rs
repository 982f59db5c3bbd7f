//! 128-bit identifiers, through the `uuid` crate.
use vstd::prelude::*;

use crate::text::uuid_text;

verus! {

/// Relies on `uuid::Uuid::from_u128` and its `Display`: the hyphenated
/// lowercase form, 32 hexadecimal digits of the big-endian value in groups
/// of 8-4-4-4-12.
#[verifier::external_body]
pub(crate) fn uuid_string(id: u128) -> (r: String)
    ensures
        r@ == uuid_text(id),
{
    uuid::Uuid::from_u128(id).to_string()
}

/// Relies on `uuid::Uuid::new_v4`: a random identifier; nothing is known of
/// its value.
#[verifier::external_body]
pub(crate) fn random_id() -> (r: u128) {
    uuid::Uuid::new_v4().as_u128()
}

} // verus!
