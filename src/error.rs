//! Errors of the client.
use vstd::prelude::*;

verus! {

/// Why a connection or an exchange failed. Each is terminal for its call.
#[derive(Clone, Copy, PartialEq, Eq, Debug, Structural)]
pub enum UsbError {
    /// No device has the vendor and product id, or it could not be opened.
    DeviceNotFound,
    /// Neither an interrupt nor a bulk endpoint pair was found.
    NoTransport,
    /// Detaching the kernel driver from the interface failed.
    EndpointConfigurationFailed,
    /// The command could not be sent.
    WriteFailed,
    /// Too many reads failed before the response was complete.
    ReadExhausted,
}

impl UsbError {
    /// The text of `message`.
    pub open spec fn spec_message(self) -> Seq<char> {
        match self {
            UsbError::DeviceNotFound => "device not found"@,
            UsbError::NoTransport => "no transport found"@,
            UsbError::EndpointConfigurationFailed => "endpoint configuration failed"@,
            UsbError::WriteFailed => "could not write to endpoint"@,
            UsbError::ReadExhausted => "too many failed reads"@,
        }
    }

    /// A short description of the error.
    pub fn message(&self) -> (r: &'static str)
        ensures
            r@ == self.spec_message(),
    {
        match self {
            UsbError::DeviceNotFound => "device not found",
            UsbError::NoTransport => "no transport found",
            UsbError::EndpointConfigurationFailed => "endpoint configuration failed",
            UsbError::WriteFailed => "could not write to endpoint",
            UsbError::ReadExhausted => "too many failed reads",
        }
    }
}

} // verus!
