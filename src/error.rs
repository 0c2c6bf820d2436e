use vstd::prelude::*;

verus! {

/// The failures that end an operation of the client.
#[derive(Clone, Copy, Debug, PartialEq, Eq, Structural)]
pub enum BleError {
    /// No local adapter's description holds the requested name.
    AdapterNotFound,
    /// The discovery stream ended before the requested address was seen.
    DeviceNotFound,
    /// A peripheral's advertisement data could not be read.
    PropertyUnavailable,
    /// A required characteristic is missing after service discovery.
    CharacteristicNotFound,
    /// A notification payload is not valid UTF-8.
    DecodeError,
    /// A radio operation failed.
    TransportError,
}

impl BleError {
    /// A short human-readable description of the error.
    pub fn message(&self) -> (r: &'static str)
        ensures
            *self is AdapterNotFound ==> r@ == "can't find adapter"@,
            *self is DeviceNotFound ==> r@ == "no device found"@,
            *self is PropertyUnavailable ==> r@ == "error reading device properties"@,
            *self is CharacteristicNotFound ==> r@ == "unable to find characteristic"@,
            *self is DecodeError ==> r@ == "notification is not valid UTF-8"@,
            *self is TransportError ==> r@ == "bluetooth operation failed"@,
    {
        match self {
            BleError::AdapterNotFound => "can't find adapter",
            BleError::DeviceNotFound => "no device found",
            BleError::PropertyUnavailable => "error reading device properties",
            BleError::CharacteristicNotFound => "unable to find characteristic",
            BleError::DecodeError => "notification is not valid UTF-8",
            BleError::TransportError => "bluetooth operation failed",
        }
    }
}

} // verus!
