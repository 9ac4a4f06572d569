//! The byte-level codec: cursor, writer, text fields and value traversal.

use std::marker::PhantomData;
use vstd::prelude::*;

pub mod de;
pub mod error;
pub mod gbk;
pub mod hexstr;
pub mod laws;
pub mod ser;
pub mod value;

pub use de::{from_bytes, from_str, Deserializer};
pub use error::Error;
pub use ser::{to_bytes, to_string, Serializer};

use crate::serde::de::field_decoding;
use crate::serde::gbk::{encode_fixed, fixed_encoding};

verus! {

/// A text for the commonest field: 17 bytes wide.
#[derive(Debug, PartialEq, Eq)]
pub struct GBKString {
    message: String,
}

impl View for GBKString {
    type V = Seq<char>;

    closed spec fn view(&self) -> Seq<char> {
        self.message@
    }
}

impl GBKString {
    /// The width of the field.
    pub const LENGTH: usize = 17;

    /// The text `message`.
    pub fn with(message: String) -> (s: Self)
        ensures
            s@ == message@,
    {
        GBKString { message }
    }

    /// The text.
    pub fn string(&self) -> (s: &String)
        ensures
            s@ == self@,
    {
        &self.message
    }

    /// The text, to be changed in place.
    pub fn mut_string(&mut self) -> (s: &mut String)
        ensures
            s@ == old(self)@,
            final(self)@ == final(s)@,
    {
        &mut self.message
    }

    /// Writes the text into its field: 17 bytes, or nothing where the text
    /// has no GBK form or does not fit.
    pub fn serialize(&self, serializer: &mut Serializer) -> (r: Result<(), Error>)
        ensures
            final(serializer).wrote(old(serializer), r, fixed_encoding(self@, 17)),
            r is Ok ==> final(serializer)@.len() == old(serializer)@.len() + 17,
    {
        match encode_fixed(self.message.as_str(), Self::LENGTH) {
            Ok(gbk) => serializer.serialize_bytes(gbk.as_slice()),
            Err(e) => Err(e),
        }
    }

    /// Reads the text from a field of 17 bytes.
    pub fn deserialize(deserializer: &mut Deserializer) -> (r: Result<GBKString, Error>)
        ensures
            final(deserializer).yields_view(
                old(deserializer),
                r,
                field_decoding(old(deserializer).remaining(), 17),
            ),
    {
        match deserializer.deserialize_gbk_string(Self::LENGTH) {
            Ok(message) => Ok(GBKString { message }),
            Err(e) => Err(e),
        }
    }
}

/// Three bytes.
pub type BuffLen3 = [u8; 3];

/// Four bytes.
pub type BuffLen4 = [u8; 4];

/// A buffer of a size that its type gives.
#[derive(Debug)]
pub struct SString<T> {
    pub data: T,
}

/// A buffer of three bytes.
pub type S3 = SString<BuffLen3>;

/// A buffer of four bytes.
pub type S4 = SString<BuffLen4>;

/// A length bound to a type.
pub trait LengthTrait: Sized {
    const LENGTH: usize;
}

/// The length 17.
#[derive(Debug)]
pub struct Length17 {}

impl LengthTrait for Length17 {
    const LENGTH: usize = 17;
}

/// A text with the length of its field bound to its type.
#[derive(Debug)]
pub struct StringBuffer<T> {
    pub message: String,
    pub _marker: PhantomData<T>,
}

impl<T: LengthTrait> StringBuffer<T> {
    /// The empty text.
    pub fn new() -> (s: Self)
        ensures
            s.message@ == Seq::<char>::empty(),
    {
        Self { message: String::new(), _marker: PhantomData }
    }

    /// The length of the field.
    pub fn length(self) -> (n: usize)
        ensures
            n == T::LENGTH,
    {
        T::LENGTH
    }
}

/// A text for a field of 17 bytes.
pub type String17 = StringBuffer<Length17>;

} // verus!
