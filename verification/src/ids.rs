//! Random identifiers.
//!
//! Identifiers are UUIDs held as their big-endian 128-bit value.

use vstd::prelude::*;

verus! {

/// Holds when `id` carries the version nibble (4) and the RFC 4122 variant
/// bits (`10`) that every randomly generated UUID carries.
pub open spec fn is_random_uuid(id: u128) -> bool {
    &&& (id >> 76u128) & 0xfu128 == 4u128
    &&& (id >> 62u128) & 0x3u128 == 2u128
}

/// Calls `uuid::Uuid::new_v4` and hands back the UUID as its big-endian
/// 128-bit value (`Uuid::as_u128`).
/// The value is random: the contract claims only the version and variant
/// bits that `new_v4` sets on every UUID it builds.
#[verifier::external_body]
pub(crate) fn new_random_id() -> (id: u128)
    ensures
        is_random_uuid(id),
{
    uuid::Uuid::new_v4().as_u128()
}

/// A random UUID is never the nil UUID.
pub proof fn law_random_ids_are_not_nil(id: u128)
    requires
        is_random_uuid(id),
    ensures
        id != 0,
{
    assert((id >> 76u128) & 0xfu128 == 4u128 ==> id != 0u128) by (bit_vector);
}

} // verus!
