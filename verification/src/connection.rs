//! Who is at the other end.

use vstd::prelude::*;

verus! {

/// The address of a Bluetooth device, most significant byte first.
#[derive(Debug, Clone, Copy)]
pub struct BluetoothAddress(pub [u8; 6]);

/// Calls `bluer::Address::any`, which gives the address `00:00:00:00:00:00`.
#[verifier::external_body]
pub(crate) fn any_address() -> (r: BluetoothAddress)
    ensures
        r.0@ == seq![0u8, 0u8, 0u8, 0u8, 0u8, 0u8],
{
    BluetoothAddress(bluer::Address::any().0)
}

/// A client that makes requests.
#[derive(Debug, Clone, Copy)]
pub struct BluerConnection {
    pub address: BluetoothAddress,
}

impl BluerConnection {
    pub fn new(address: &BluetoothAddress) -> (r: Self)
        ensures
            r == (BluerConnection { address: *address }),
    {
        Self { address: *address }
    }

    /// A client whose address is not known.
    pub open spec fn is_unknown(self) -> bool {
        self.address.0@ == seq![0u8, 0u8, 0u8, 0u8, 0u8, 0u8]
    }

    /// Returns a client whose address is not known.
    pub fn unknown() -> (r: Self)
        ensures
            r.is_unknown(),
    {
        Self { address: any_address() }
    }

    pub fn peer_address(&self) -> (r: &BluetoothAddress)
        ensures
            *r == self.address,
    {
        &self.address
    }
}

} // verus!
