//! The error type of the library.
//!
//! Every fallible function of the crate reports one of these variants; each
//! function's contract says on which inputs it does so.

use vstd::prelude::*;

verus! {

/// Errors of the NetMD protocol logic.
#[derive(Debug, Clone, PartialEq, Eq)]
pub enum NetMDError {
    /// Reply status `0x08`: the device does not implement the command.
    NotImplemented,
    /// Reply status `0x0a`: the device rejected the command; holds the raw reply.
    Rejected(Vec<u8>),
    /// A reply status byte that the protocol does not define for a reply.
    UnknownStatus(u8),
    /// The device kept answering "interim" past the retry budget.
    MaxInterimAttempts,
    /// No supported NetMD device is connected.
    DeviceNotFound,
    /// The requested supported device is not connected.
    DeviceNotFoundById { vendor_id: u16, product_id: u16 },
    /// Several supported devices are connected and none was selected.
    MultipleSupportedDevices,
    /// A query string is not an even number of hexadecimal digits.
    InvalidQuery,
    /// A reply does not match the template it was scanned with.
    Scan,
    /// A reply matched its template but its content is not what the protocol allows.
    UnexpectedResponse,
    /// A WAV/RIFF payload could not be parsed.
    InvalidWav(WavProblem),
    /// A title cannot be represented in Shift-JIS, or a reply is not valid Shift-JIS.
    TextEncoding,
    /// An argument is outside what the command accepts.
    InvalidInput,
    /// A fixed-size integer was read from a slice of the wrong length.
    InvalidDataLength,
    /// The vendor/product ID pair is not a supported NetMD model.
    UnsupportedDevice { vendor_id: u16, product_id: u16 },
}

/// What is wrong with a WAV payload.
#[derive(Debug, Clone, Copy, PartialEq, Eq, Structural)]
pub enum WavProblem {
    /// The payload does not start with a `RIFF....WAVE` header.
    NotRiffWave,
    /// No `fmt ` chunk was found.
    MissingFmt,
    /// No `data` chunk was found.
    MissingData,
}

} // verus!
