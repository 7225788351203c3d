//! Attribute UUIDs in their short and long forms.

use bluer::{Uuid, UuidExt};
use vstd::prelude::*;

verus! {

/// The UUID that stands for an attribute type.
#[derive(Debug, Clone, Copy, PartialEq, Eq, Structural)]
pub enum UUID {
    /// A 16-bit number assigned by the Bluetooth SIG.
    Short(u16),
    /// A full 128-bit UUID.
    Long(u128),
}

/// The UUID `00000000-0000-1000-8000-00805f9b34fb`, into which short forms are placed.
pub const BASE_UUID: u128 = 0x00000000_0000_1000_8000_00805f9b34fb;

/// What one unit of a short form is worth in the 128-bit value: 2 to the power of 96.
pub const SHORT_FORM_UNIT: u128 = 0x00000001_0000_0000_0000_000000000000;

/// The 128-bit value of the short form `v`.
pub open spec fn long_form(v: u16) -> u128 {
    (BASE_UUID + v * SHORT_FORM_UNIT) as u128
}

impl UUID {
    /// The 128-bit value of the UUID.
    pub open spec fn value(self) -> u128 {
        match self {
            UUID::Short(v) => long_form(v),
            UUID::Long(v) => v,
        }
    }

    /// Returns the 128-bit value of the UUID.
    pub fn as_u128(&self) -> (r: u128)
        ensures
            r == self.value(),
    {
        match *self {
            UUID::Short(v) => uuid_from_u16(v),
            UUID::Long(v) => v,
        }
    }
}

/// Calls `bluer::UuidExt::from_u16`, which puts a short form into the top 32 bits of the
/// Bluetooth base UUID, and hands out the 128-bit value of the result.
#[verifier::external_body]
pub(crate) fn uuid_from_u16(v: u16) -> (r: u128)
    ensures
        r == long_form(v),
{
    <Uuid as UuidExt>::from_u16(v).as_u128()
}

/// The 128-bit value under which an attribute is published.
pub fn convert_uuid(trait_uuid: UUID) -> (r: u128)
    ensures
        r == trait_uuid.value(),
{
    trait_uuid.as_u128()
}

/// Two short forms stand for the same UUID only if they are equal.
pub proof fn law_long_form_injective(a: u16, b: u16)
    ensures
        long_form(a) == long_form(b) ==> a == b,
{
}

} // verus!
