//! The failure taxonomy of the driver.  The first failure at any layer
//! is surfaced immediately, as a typed variant plus a human-readable
//! detail string; there is no aggregation and no partial success.

use vstd::prelude::*;

verus! {

/// A typed failure of the driver.
///
/// `OpenError` covers handle acquisition, interface claim and
/// endpoint-clear failures; `ReadError` and `WriteError` are transport
/// failures in the respective direction; `CloseError` is a failed
/// interface release; `OtherError` covers file access errors, malformed
/// bitstream characters and the post-upload verification failure.
#[derive(Debug)]
pub enum DeviceError {
    OpenError,
    ReadError(String),
    WriteError(String),
    CloseError(String),
    OtherError(String),
}

impl DeviceError {
    /// The fixed description of this failure's kind, without the detail.
    pub open spec fn spec_description(&self) -> Seq<char> {
        match self {
            DeviceError::OpenError => "Device Open error"@,
            DeviceError::ReadError(_) => "Device read error"@,
            DeviceError::WriteError(_) => "Device write error"@,
            DeviceError::CloseError(_) => "Device close error"@,
            DeviceError::OtherError(_) => "Device other error"@,
        }
    }

    /// The detail string carried by this failure, if its variant has one.
    pub open spec fn spec_detail(&self) -> Option<Seq<char>> {
        match self {
            DeviceError::OpenError => None,
            DeviceError::ReadError(s) => Some(s@),
            DeviceError::WriteError(s) => Some(s@),
            DeviceError::CloseError(s) => Some(s@),
            DeviceError::OtherError(s) => Some(s@),
        }
    }

    /// A fixed description of the failure's kind.
    pub fn description(&self) -> (r: String)
        ensures
            r@ == self.spec_description(),
    {
        match self {
            DeviceError::OpenError => String::from_str("Device Open error"),
            DeviceError::ReadError(_) => String::from_str("Device read error"),
            DeviceError::WriteError(_) => String::from_str("Device write error"),
            DeviceError::CloseError(_) => String::from_str("Device close error"),
            DeviceError::OtherError(_) => String::from_str("Device other error"),
        }
    }

    /// The detail string carried by the failure, or `None` for a bare
    /// open failure.
    pub fn detail(&self) -> (r: Option<&String>)
        ensures
            match r {
                Some(s) => self.spec_detail() == Some(s@),
                None => self.spec_detail() is None,
            },
    {
        match self {
            DeviceError::OpenError => None,
            DeviceError::ReadError(s) => Some(s),
            DeviceError::WriteError(s) => Some(s),
            DeviceError::CloseError(s) => Some(s),
            DeviceError::OtherError(s) => Some(s),
        }
    }
}

} // verus!
