//! Identifiers of players and sessions.

use vstd::prelude::*;
use uuid::Uuid;

verus! {

/// Whether `id`, read as the sixteen bytes of a universally unique
/// identifier, is marked as a random one: version four, standard variant.
pub open spec fn is_random_id(id: u128) -> bool {
    (id >> 76) & 0xf == 4 && (id >> 62) & 0x3 == 2
}

/// A fresh identifier from `Uuid::new_v4`, as the number that `as_u128`
/// reads from its bytes. The version and variant bits are set by the
/// builder; the other bits come from the system's generator and nothing is
/// claimed of them. `new_v4` gives up (panics) where the system has no
/// random bytes to offer.
#[verifier::external_body]
pub(crate) fn random_id() -> (id: u128)
    ensures
        is_random_id(id),
{
    Uuid::new_v4().as_u128()
}

/// Whether `id` is marked as a random identifier.
pub fn is_random(id: u128) -> (marked: bool)
    ensures
        marked == is_random_id(id),
{
    (id >> 76) & 0xf == 4 && (id >> 62) & 0x3 == 2
}

} // verus!
