//! The four bulk endpoints of the device, a closed enumeration.  Each
//! endpoint has a fixed one-byte address whose high bit encodes the
//! direction: host-to-device endpoints have it clear, device-to-host
//! endpoints have it set.

use vstd::prelude::*;

verus! {

/// A bulk endpoint of the device.
///
/// - `EP2`: data out — the encoded programming bytes.
/// - `EP4`: command out — protocol command bytes.
/// - `EP6`: data in — key table and configuration responses.
/// - `EP8`: status in — the single-byte ready signal.
#[derive(Clone, Copy, PartialEq, Eq, Structural, Debug)]
pub enum EndPoint {
    EP2,
    EP4,
    EP6,
    EP8,
}

impl EndPoint {
    /// The fixed wire address of the endpoint.
    pub open spec fn spec_address(self) -> u8 {
        match self {
            EndPoint::EP2 => 0x02,
            EndPoint::EP4 => 0x04,
            EndPoint::EP6 => 0x86,
            EndPoint::EP8 => 0x88,
        }
    }

    /// Whether the endpoint carries data from the device to the host.
    pub open spec fn spec_is_input(self) -> bool {
        self.spec_address() & 0x80 != 0
    }

    /// The fixed wire address of the endpoint.
    pub fn address(self) -> (r: u8)
        ensures
            r == self.spec_address(),
    {
        match self {
            EndPoint::EP2 => 0x02,
            EndPoint::EP4 => 0x04,
            EndPoint::EP6 => 0x86,
            EndPoint::EP8 => 0x88,
        }
    }

    /// Whether the endpoint carries data from the device to the host.
    pub fn is_input(self) -> (r: bool)
        ensures
            r == self.spec_is_input(),
    {
        let a = self.address();
        a & 0x80 != 0
    }
}

} // verus!
