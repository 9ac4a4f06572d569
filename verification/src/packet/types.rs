//! The small fields that frames are made of.

use vstd::prelude::*;

use crate::serde::de::Deserializer;
use crate::serde::gbk::{GBKString, Options};
use crate::serde::ser::Serializer;
use crate::serde::Error;

verus! {

/// A moment, as six bytes that are kept as they come: no range is checked.
#[derive(Debug, Clone, Copy, PartialEq, Eq)]
pub struct Time {
    /// Years since 2000.
    pub year: u8,
    pub month: u8,
    pub day: u8,
    pub hour: u8,
    pub minute: u8,
    pub second: u8,
}

/// Six bytes: year, month, day, hour, minute, second.
pub open spec fn time_decoding(s: Seq<u8>) -> Result<(Time, nat), Error> {
    if s.len() < 6 {
        Err(Error::UnexpectedEof)
    } else {
        Ok(
            (
                Time {
                    year: s[0],
                    month: s[1],
                    day: s[2],
                    hour: s[3],
                    minute: s[4],
                    second: s[5],
                },
                6,
            ),
        )
    }
}

/// The six bytes of a moment.
pub open spec fn time_encoding(t: Time) -> Seq<u8> {
    seq![t.year, t.month, t.day, t.hour, t.minute, t.second]
}

impl Time {
    /// Reads six bytes.
    pub fn deserialize(de: &mut Deserializer) -> (r: Result<Time, Error>)
        ensures
            final(de).yields(old(de), r, time_decoding(old(de).remaining())),
    {
        if de.remaining_len() < 6 {
            return Err(Error::UnexpectedEof);
        }
        let mut cursor = de.fork();
        let year: u8 = cursor.deserialize_u8()?;
        let month: u8 = cursor.deserialize_u8()?;
        let day: u8 = cursor.deserialize_u8()?;
        let hour: u8 = cursor.deserialize_u8()?;
        let minute: u8 = cursor.deserialize_u8()?;
        let second: u8 = cursor.deserialize_u8()?;
        *de = cursor;
        Ok(Time { year, month, day, hour, minute, second })
    }

    /// Writes six bytes.
    pub fn serialize(&self, ser: &mut Serializer) -> (r: Result<(), Error>)
        ensures
            final(ser).wrote(old(ser), r, Ok(time_encoding(*self))),
    {
        let _ = ser.serialize_u8(self.year);
        let _ = ser.serialize_u8(self.month);
        let _ = ser.serialize_u8(self.day);
        let _ = ser.serialize_u8(self.hour);
        let _ = ser.serialize_u8(self.minute);
        let _ = ser.serialize_u8(self.second);
        assert(ser@ =~= old(ser)@ + time_encoding(*self));
        Ok(())
    }
}

/// How the body of a frame is encrypted.
#[derive(Debug, Clone, Copy, PartialEq, Eq)]
pub enum Encrypt {
    /// The body is not encrypted.
    Plain,
    Rsa,
    Aes128,
}

impl Encrypt {
    /// The byte that stands for this mode.
    pub open spec fn discriminant(self) -> u8 {
        match self {
            Encrypt::Plain => 0x01,
            Encrypt::Rsa => 0x02,
            Encrypt::Aes128 => 0x03,
        }
    }

    /// The mode that a byte stands for.
    pub open spec fn of_discriminant(code: u8) -> Option<Encrypt> {
        if code == 0x01 {
            Some(Encrypt::Plain)
        } else if code == 0x02 {
            Some(Encrypt::Rsa)
        } else if code == 0x03 {
            Some(Encrypt::Aes128)
        } else {
            None
        }
    }

    pub fn to_u8(&self) -> (code: u8)
        ensures
            code == self.discriminant(),
            Encrypt::of_discriminant(code) == Some(*self),
    {
        match self {
            Encrypt::Plain => 0x01,
            Encrypt::Rsa => 0x02,
            Encrypt::Aes128 => 0x03,
        }
    }

    pub fn from_u8(code: u8) -> (r: Option<Encrypt>)
        ensures
            r == Encrypt::of_discriminant(code),
    {
        if code == 0x01 {
            Some(Encrypt::Plain)
        } else if code == 0x02 {
            Some(Encrypt::Rsa)
        } else if code == 0x03 {
            Some(Encrypt::Aes128)
        } else {
            None
        }
    }
}

/// The width of a vehicle identifier.
#[derive(Debug, Clone, Copy, PartialEq, Eq)]
pub struct VinOpts {}

impl Options for VinOpts {
    const LENGTH: usize = 17;
}

/// A vehicle identifier: text in a field of 17 bytes.
pub type Vin = GBKString<VinOpts>;

/// The width of a subscriber identifier.
#[derive(Debug, Clone, Copy, PartialEq, Eq)]
pub struct IccidOpts {}

impl Options for IccidOpts {
    const LENGTH: usize = 20;
}

/// A subscriber identifier: text in a field of 20 bytes.
pub type Iccid = GBKString<IccidOpts>;

/// The widths of the two identifiers.
pub proof fn lemma_widths()
    ensures
        VinOpts::LENGTH == 17,
        IccidOpts::LENGTH == 20,
{
}

} // verus!
