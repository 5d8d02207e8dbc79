//! Identifiers and timestamps as the control plane holds them.
//!
//! An identifier is the 128-bit value of a UUID (big-endian, as `Uuid::as_u128`
//! gives it); a timestamp is a count of nanoseconds since the Unix epoch, in UTC.
use vstd::prelude::*;

verus! {

/// The nil identifier (all bits zero), which the agent reports as the node of a
/// task it starts.
pub const NIL_ID: u128 = 0;

/// The version nibble of a random (version 4) UUID is 4, and its two variant
/// bits are `10` (RFC 4122).
pub open spec fn is_random_id(id: u128) -> bool {
    &&& (id >> 76u128) & 0xfu128 == 4u128
    &&& (id >> 62u128) & 0x3u128 == 2u128
}

/// A random identifier never equals the nil identifier.
pub proof fn lemma_random_id_not_nil(id: u128)
    requires
        is_random_id(id),
    ensures
        id != NIL_ID,
{
    assert((id >> 76u128) & 0xfu128 == 4u128 ==> id != 0u128) by (bit_vector);
}

/// Draws a fresh identifier with `uuid::Uuid::new_v4` and returns its 128-bit value.
///
/// The value is random: all that is claimed is what `new_v4` sets on every
/// outcome, the version and variant bits of a version 4 UUID.
#[verifier::external_body]
pub(crate) fn new_id() -> (id: u128)
    ensures
        is_random_id(id),
{
    uuid::Uuid::new_v4().as_u128()
}

/// Reads the clock with `time::OffsetDateTime::now_utc` and returns the instant as
/// nanoseconds since the Unix epoch (`unix_timestamp_nanos`).
///
/// The value depends on the clock: nothing is claimed of it.
#[verifier::external_body]
pub(crate) fn now_nanos() -> i128 {
    time::OffsetDateTime::now_utc().unix_timestamp_nanos()
}

} // verus!
