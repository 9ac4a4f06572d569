//! What can go wrong while a frame is read or written.

use vstd::prelude::*;

verus! {

/// The ways in which reading or writing a frame fails.
#[derive(Debug, PartialEq)]
pub enum Error {
    /// The text is not the hexadecimal form of any bytes.
    HexString(hex::FromHexError),
    /// A field of the frame could not be read or written.
    Serde(crate::serde::Error),
    /// The header's command selects no body known here.
    UnknownCommand,
    /// The body does not occupy as many bytes as the header declares.
    BodyLengthMismatch,
    /// The checksum byte is not the exclusive-or of the bytes it covers.
    ChecksumMismatch,
}

/// A failure of the byte-level codec, as a failure of the frame.
pub open spec fn lift<T>(r: Result<T, crate::serde::Error>) -> Result<T, Error> {
    match r {
        Ok(v) => Ok(v),
        Err(e) => Err(Error::Serde(e)),
    }
}

} // verus!
