use vstd::prelude::*;

verus! {

#[verifier::external_type_specification]
#[verifier::external_body]
pub struct ExIoError(std::io::Error);

#[verifier::external_type_specification]
pub struct ExIoErrorKind(std::io::ErrorKind);

/// The kind of an I/O error, as `std::io::Error::kind` reports it.
pub uninterp spec fn io_error_kind(e: std::io::Error) -> std::io::ErrorKind;

/// Every way an exchange with a device can fail.
#[derive(Debug)]
pub enum Error {
    /// The response did not start as the protocol demands.
    InvalidResponsePrefix,
    /// No candidate frame carried a matching CRC-16/XMODEM.
    InvalidResponseCrcSum,
    /// A stop byte arrived but no start byte preceded it.
    InvalidResponseFormat,
    /// The payload has the wrong shape (wrong prefix, too few fields, wrong length).
    InvalidPayload,
    /// The transport failed, or ended in the middle of an exchange.
    Io(std::io::Error),
    /// Text that is not valid UTF-8.
    Utf8,
    /// A fixed-point field is not a decimal number.
    ParseFloat,
    /// An integer field is not a number, or does not fit its type.
    ParseInt,
    InvalidDeviceStatus,
    InvalidDeviceBatteryType,
    InvalidDeviceInputVoltageRange,
    InvalidDeviceOutputSourcePriority,
    InvalidDeviceChargeSourcePriority,
    InvalidDeviceMachineType,
    InvalidDeviceTopology,
    InvalidDeviceOutputMode,
    InvalidDeviceMode,
    InvalidWarningStatus,
}

impl From<std::io::Error> for Error {
    fn from(inner: std::io::Error) -> (r: Self)
        ensures
            r == Error::Io(inner),
    {
        Error::Io(inner)
    }
}

impl vstd::std_specs::convert::FromSpecImpl<std::io::Error> for Error {
    open spec fn obeys_from_spec() -> bool {
        true
    }

    open spec fn from_spec(inner: std::io::Error) -> Self {
        Error::Io(inner)
    }
}

} // verus!
