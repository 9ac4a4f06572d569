//! What can go wrong while bytes are read or written.

use vstd::prelude::*;

verus! {

/// The ways in which reading or writing a value fails.
#[derive(Debug, PartialEq)]
pub enum Error {
    /// A failure raised while a value was traversed, with its reason.
    Custom(String),
    /// The shape of the value has no place in this closed format.
    Unsupported,
    /// Fewer bytes remain than the field occupies.
    UnexpectedEof,
    /// The text cannot be written in GBK, or the bytes are not GBK text.
    GBK,
    /// The GBK form of the text is longer than the width of its field.
    GbkTooLarge,
    /// A presence byte is neither 0 nor 1.
    InvalidOptionTag,
    /// A discriminant names no value of its enumeration.
    UnknownDiscriminant,
    /// The text is not the hexadecimal form of any bytes.
    HexString(hex::FromHexError),
}

impl Error {
    /// A failure raised while a value was traversed, with its reason.
    pub fn custom(msg: String) -> (e: Error)
        ensures
            e == Error::Custom(msg),
    {
        Error::Custom(msg)
    }
}

} // verus!
