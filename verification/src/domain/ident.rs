//! Opaque identifiers for backends, sessions and session owners.
//!
//! An identifier is a UUID, held as the 128-bit number that its sixteen bytes
//! spell in big-endian order.

use uuid::Uuid;
use vstd::prelude::*;

verus! {

/// The bits of an identifier that hold its version and its variant.
pub const VERSION_AND_VARIANT_MASK: u128 = 0x0000_0000_0000_f000_c000_0000_0000_0000;

/// What those bits hold in a random (version 4) identifier of the RFC 9562
/// variant.
pub const RANDOM_VERSION_AND_VARIANT: u128 = 0x0000_0000_0000_4000_8000_0000_0000_0000;

/// `id` has the shape of a random identifier: version 4, RFC 9562 variant.
/// The other 122 bits are free.
pub open spec fn is_random_id(id: u128) -> bool {
    id & VERSION_AND_VARIANT_MASK == RANDOM_VERSION_AND_VARIANT
}

/// Draws a new random identifier.
///
/// Calls `uuid::Uuid::new_v4` and hands the result out through
/// `Uuid::as_u128`. The value comes from the operating system's random number
/// generator, so the contract claims of it only what `new_v4` fixes in every
/// result: the version and variant bits. `new_v4` panics if the operating
/// system cannot supply random bytes.
#[verifier::external_body]
pub(crate) fn fresh_id() -> (id: u128)
    ensures
        is_random_id(id),
{
    Uuid::new_v4().as_u128()
}

} // verus!
