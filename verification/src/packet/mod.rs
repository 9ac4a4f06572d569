//! The frame: a header of fixed size, a body that the header's command
//! selects, and one checksum byte.

use vstd::prelude::*;
use vstd::slice::slice_subrange;

pub mod bcc;
pub mod body;
pub mod error;
pub mod laws;
pub mod parser;
pub mod types;

use crate::packet::bcc::{checksum, xor_all};
use crate::packet::body::{lemma_body_fits, payload_encoding, Body, Payload, PayloadView};
use crate::packet::error::Error;
use crate::packet::types::{lemma_widths, VinOpts};
use crate::serde::de::{be16, Deserializer};
use crate::serde::gbk::{encode_fixed, fixed_decoding, fixed_encoding, Options};
use crate::serde::ser::{u16_encoding, Serializer};

pub use types::Encrypt;
pub use types::Iccid;
pub use types::Time;
pub use types::Vin;

verus! {

/// What a frame is for.
#[derive(Debug, Clone, Copy, PartialEq, Eq)]
pub enum Command {
    VehicleLogin,
    RealTimeReport,
    ReissueReport,
    VehicleLogout,
    PlatformLogin,
    PlatformLogout,
    HeartBeat,
    Time,
}

impl Command {
    /// The byte that stands for this command.
    pub open spec fn discriminant(self) -> u8 {
        match self {
            Command::VehicleLogin => 0x01,
            Command::RealTimeReport => 0x02,
            Command::ReissueReport => 0x03,
            Command::VehicleLogout => 0x04,
            Command::PlatformLogin => 0x05,
            Command::PlatformLogout => 0x06,
            Command::HeartBeat => 0x07,
            Command::Time => 0x08,
        }
    }

    /// The command that a byte stands for.
    pub open spec fn of_discriminant(code: u8) -> Option<Command> {
        if code == 0x01 {
            Some(Command::VehicleLogin)
        } else if code == 0x02 {
            Some(Command::RealTimeReport)
        } else if code == 0x03 {
            Some(Command::ReissueReport)
        } else if code == 0x04 {
            Some(Command::VehicleLogout)
        } else if code == 0x05 {
            Some(Command::PlatformLogin)
        } else if code == 0x06 {
            Some(Command::PlatformLogout)
        } else if code == 0x07 {
            Some(Command::HeartBeat)
        } else if code == 0x08 {
            Some(Command::Time)
        } else {
            None
        }
    }

    pub fn to_u8(&self) -> (code: u8)
        ensures
            code == self.discriminant(),
            Command::of_discriminant(code) == Some(*self),
    {
        match self {
            Command::VehicleLogin => 0x01,
            Command::RealTimeReport => 0x02,
            Command::ReissueReport => 0x03,
            Command::VehicleLogout => 0x04,
            Command::PlatformLogin => 0x05,
            Command::PlatformLogout => 0x06,
            Command::HeartBeat => 0x07,
            Command::Time => 0x08,
        }
    }

    pub fn from_u8(code: u8) -> (r: Option<Command>)
        ensures
            r == Command::of_discriminant(code),
    {
        if code == 0x01 {
            Some(Command::VehicleLogin)
        } else if code == 0x02 {
            Some(Command::RealTimeReport)
        } else if code == 0x03 {
            Some(Command::ReissueReport)
        } else if code == 0x04 {
            Some(Command::VehicleLogout)
        } else if code == 0x05 {
            Some(Command::PlatformLogin)
        } else if code == 0x06 {
            Some(Command::PlatformLogout)
        } else if code == 0x07 {
            Some(Command::HeartBeat)
        } else if code == 0x08 {
            Some(Command::Time)
        } else {
            None
        }
    }
}

/// How a command was answered, or that the frame is itself a command.
#[derive(Debug, Clone, Copy, PartialEq, Eq)]
pub enum Response {
    Success,
    Fail,
    DupVin,
    Command,
}

impl Response {
    /// The byte that stands for this answer.
    pub open spec fn discriminant(self) -> u8 {
        match self {
            Response::Success => 0x00,
            Response::Fail => 0x01,
            Response::DupVin => 0x02,
            Response::Command => 0xFE,
        }
    }

    /// The answer that a byte stands for.
    pub open spec fn of_discriminant(code: u8) -> Option<Response> {
        if code == 0x00 {
            Some(Response::Success)
        } else if code == 0x01 {
            Some(Response::Fail)
        } else if code == 0x02 {
            Some(Response::DupVin)
        } else if code == 0xFE {
            Some(Response::Command)
        } else {
            None
        }
    }

    pub fn to_u8(&self) -> (code: u8)
        ensures
            code == self.discriminant(),
            Response::of_discriminant(code) == Some(*self),
    {
        match self {
            Response::Success => 0x00,
            Response::Fail => 0x01,
            Response::DupVin => 0x02,
            Response::Command => 0xFE,
        }
    }

    pub fn from_u8(code: u8) -> (r: Option<Response>)
        ensures
            r == Response::of_discriminant(code),
    {
        if code == 0x00 {
            Some(Response::Success)
        } else if code == 0x01 {
            Some(Response::Fail)
        } else if code == 0x02 {
            Some(Response::DupVin)
        } else if code == 0xFE {
            Some(Response::Command)
        } else {
            None
        }
    }
}

/// The command byte of a header, as it came: whether a body is known for
/// it is decided when the body is read.
#[derive(Debug, Clone, Copy, PartialEq, Eq)]
pub struct MyCommand(pub u8);

/// The value of the two bytes that open every frame.
pub const BEGIN: u16 = 0x2323;

/// The number of bytes of a header.
pub const HEADER_LEN: usize = 24;

/// The part of a frame that is the same for every command.
#[derive(Debug, PartialEq, Eq)]
pub struct Header {
    pub begin: u16,
    pub command: MyCommand,
    pub response: Response,
    pub vin: Vin,
    pub encrypt: Encrypt,
    /// The number of bytes of the body, without header and checksum.
    pub body_len: u16,
}

/// The mathematical content of a [`Header`].
pub struct HeaderView {
    pub begin: u16,
    pub command: u8,
    pub response: Response,
    pub vin: Seq<char>,
    pub encrypt: Encrypt,
    pub body_len: u16,
}

impl View for Header {
    type V = HeaderView;

    open spec fn view(&self) -> HeaderView {
        HeaderView {
            begin: self.begin,
            command: self.command.0,
            response: self.response,
            vin: self.vin@,
            encrypt: self.encrypt,
            body_len: self.body_len,
        }
    }
}

/// A header: begin marker (2), command (1), response (1), vehicle
/// identifier (17), encryption mode (1), body length (2). Its 24 bytes are
/// taken first; then the fields are read in this order, and the first one
/// that cannot be read decides the error. The begin marker and the command
/// are kept as they come.
pub open spec fn header_decoding(s: Seq<u8>) -> Result<(HeaderView, nat), crate::serde::Error> {
    if s.len() < 24 {
        Err(crate::serde::Error::UnexpectedEof)
    } else {
        match Response::of_discriminant(s[3]) {
            None => Err(crate::serde::Error::UnknownDiscriminant),
            Some(response) => match fixed_decoding(s.subrange(4, 21)) {
                Err(e) => Err(e),
                Ok(vin) => match Encrypt::of_discriminant(s[21]) {
                    None => Err(crate::serde::Error::UnknownDiscriminant),
                    Some(encrypt) => Ok(
                        (
                            HeaderView {
                                begin: be16(s[0], s[1]),
                                command: s[2],
                                response,
                                vin,
                                encrypt,
                                body_len: be16(s[22], s[23]),
                            },
                            24,
                        ),
                    ),
                },
            },
        }
    }
}

/// The 24 bytes of a header, field after field.
pub open spec fn header_encoding(h: HeaderView) -> Result<Seq<u8>, crate::serde::Error> {
    match fixed_encoding(h.vin, VinOpts::LENGTH as nat) {
        Err(e) => Err(e),
        Ok(vin) => Ok(
            u16_encoding(h.begin) + seq![h.command, h.response.discriminant()] + vin
                + seq![h.encrypt.discriminant()] + u16_encoding(h.body_len),
        ),
    }
}

impl Header {
    /// Reads a header. Where fewer than 24 bytes remain, or a field cannot
    /// be read, `de` stays where it was.
    pub fn deserialize(de: &mut Deserializer) -> (r: Result<Self, crate::serde::Error>)
        ensures
            final(de).yields_view(old(de), r, header_decoding(old(de).remaining())),
    {
        let ghost s = de.remaining();
        if de.remaining_len() < HEADER_LEN {
            return Err(crate::serde::Error::UnexpectedEof);
        }
        let mut cursor = de.fork();
        let begin: u16 = cursor.deserialize_u16()?;
        proof {
            cursor.lemma_after(old(de), 2);
        }
        let command: u8 = cursor.deserialize_u8()?;
        proof {
            cursor.lemma_after(old(de), 3);
        }
        let response: Response = match Response::from_u8(cursor.deserialize_u8()?) {
            Some(response) => response,
            None => { return Err(crate::serde::Error::UnknownDiscriminant); },
        };
        proof {
            cursor.lemma_after(old(de), 4);
            lemma_widths();
            assert(cursor.remaining().take(17) =~= s.subrange(4, 21));
        }
        let vin: Vin = Vin::deserialize(&mut cursor)?;
        proof {
            cursor.lemma_after(old(de), 21);
        }
        let encrypt: Encrypt = match Encrypt::from_u8(cursor.deserialize_u8()?) {
            Some(encrypt) => encrypt,
            None => { return Err(crate::serde::Error::UnknownDiscriminant); },
        };
        proof {
            cursor.lemma_after(old(de), 22);
        }
        let body_len: u16 = cursor.deserialize_u16()?;
        *de = cursor;
        Ok(Header { begin, command: MyCommand(command), response, vin, encrypt, body_len })
    }

    /// Writes a header: 24 bytes, or nothing where the vehicle identifier
    /// has no GBK form or does not fit its field.
    pub fn serialize(&self, ser: &mut Serializer) -> (r: Result<(), crate::serde::Error>)
        ensures
            final(ser).wrote(old(ser), r, header_encoding(self@)),
    {
        let vin: Vec<u8> = encode_fixed(self.vin.message.as_str(), VinOpts::LENGTH)?;
        let _ = ser.serialize_u16(self.begin);
        let _ = ser.serialize_u8(self.command.0);
        let _ = ser.serialize_u8(self.response.to_u8());
        let _ = ser.serialize_bytes(vin.as_slice());
        let _ = ser.serialize_u8(self.encrypt.to_u8());
        let _ = ser.serialize_u16(self.body_len);
        assert(ser@ =~= old(ser)@ + header_encoding(self@)->Ok_0);
        Ok(())
    }
}

/// One frame.
#[derive(Debug, PartialEq, Eq)]
pub struct Packet {
    pub begin: u16,
    pub command: Command,
    pub response: Response,
    pub vin: Vin,
    pub encrypt: Encrypt,
    /// The number of bytes of the body on the wire.
    pub body_len: u16,
    pub body: Payload,
    /// The checksum byte.
    pub bcc: u8,
}

/// The mathematical content of a [`Packet`].
pub struct PacketView {
    pub begin: u16,
    pub command: Command,
    pub response: Response,
    pub vin: Seq<char>,
    pub encrypt: Encrypt,
    pub body_len: u16,
    pub body: PayloadView,
    pub bcc: u8,
}

impl View for Packet {
    type V = PacketView;

    open spec fn view(&self) -> PacketView {
        PacketView {
            begin: self.begin,
            command: self.command,
            response: self.response,
            vin: self.vin@,
            encrypt: self.encrypt,
            body_len: self.body_len,
            body: self.body@,
            bcc: self.bcc,
        }
    }
}

/// The bytes of a frame: header, body, checksum. The body length that is
/// written is the number of bytes of the body as written, and the checksum
/// covers every byte after the begin marker; what the packet itself holds
/// in `body_len` and `bcc` is not consulted. Where both the vehicle
/// identifier and the body cannot be written, the error is that of the
/// identifier, which comes first.
pub open spec fn frame_encoding(p: PacketView) -> Result<Seq<u8>, Error> {
    match fixed_encoding(p.vin, VinOpts::LENGTH as nat) {
        Err(e) => Err(Error::Serde(e)),
        Ok(_) => match payload_encoding(p.body) {
            Err(e) => Err(Error::Serde(e)),
            Ok(body) => {
                let head = header_encoding(
                    HeaderView {
                        begin: p.begin,
                        command: p.command.discriminant(),
                        response: p.response,
                        vin: p.vin,
                        encrypt: p.encrypt,
                        body_len: body.len() as u16,
                    },
                )->Ok_0;
                Ok((head + body).push(xor_all((head + body).skip(2))))
            },
        },
    }
}

impl PacketView {
    /// The packet says of itself what its frame says: it has a frame, its
    /// command is the one that announces its body, and `body_len` and `bcc`
    /// are those of its frame.
    pub open spec fn valid(self) -> bool {
        &&& self.command == self.body.command()
        &&& frame_encoding(self) is Ok
        &&& self.body_len == payload_encoding(self.body)->Ok_0.len()
        &&& self.bcc == frame_encoding(self)->Ok_0.last()
    }
}

impl Packet {
    /// The frame of the given parts, with its body length and checksum.
    fn assemble(
        begin: u16,
        command: Command,
        response: Response,
        vin: &Vin,
        encrypt: Encrypt,
        body: &Payload,
    ) -> (r: Result<Vec<u8>, Error>)
        ensures
            match frame_encoding(
                PacketView {
                    begin,
                    command,
                    response,
                    vin: vin@,
                    encrypt,
                    body_len: 0,
                    body: body@,
                    bcc: 0,
                },
            ) {
                Ok(frame) => r is Ok && r->Ok_0@ == frame && frame.len() >= 25
                    && frame.len() == 25 + payload_encoding(body@)->Ok_0.len(),
                Err(e) => r == Err::<Vec<u8>, Error>(e),
            },
    {
        proof {
            lemma_widths();
        }
        let field: Vec<u8> = match encode_fixed(vin.message.as_str(), VinOpts::LENGTH) {
            Ok(field) => field,
            Err(e) => { return Err(Error::Serde(e)); },
        };
        let mut inner = Serializer::new();
        match body.serialize(&mut inner) {
            Ok(()) => {},
            Err(e) => { return Err(Error::Serde(e)); },
        }
        let body_bytes: Vec<u8> = inner.into_bytes();
        proof {
            lemma_body_fits(body@);
        }
        let mut ser = Serializer::new();
        let _ = ser.serialize_u16(begin);
        let _ = ser.serialize_u8(command.to_u8());
        let _ = ser.serialize_u8(response.to_u8());
        let _ = ser.serialize_bytes(field.as_slice());
        let _ = ser.serialize_u8(encrypt.to_u8());
        let _ = ser.serialize_u16(body_bytes.len() as u16);
        let _ = ser.serialize_bytes(body_bytes.as_slice());
        let mut frame: Vec<u8> = ser.into_bytes();
        let ghost head = header_encoding(
            HeaderView {
                begin,
                command: command.discriminant(),
                response,
                vin: vin@,
                encrypt,
                body_len: body_bytes.len() as u16,
            },
        )->Ok_0;
        assert(frame@ =~= head + body_bytes@);
        let covered = slice_subrange(frame.as_slice(), 2, frame.len());
        assert(covered@ =~= frame@.skip(2));
        let bcc: u8 = checksum(covered);
        frame.push(bcc);
        Ok(frame)
    }

    /// A packet of the given parts that opens with the usual begin marker,
    /// and whose command, body length and checksum are those of its frame.
    pub fn new(response: Response, vin: Vin, encrypt: Encrypt, body: Payload) -> (r: Result<
        Packet,
        Error,
    >)
        ensures
            match r {
                Ok(p) => p@.begin == BEGIN && p@.command == body@.command() && p@.response
                    == response && p@.vin == vin@ && p@.encrypt == encrypt && p@.body == body@
                    && p@.valid(),
                Err(e) => frame_encoding(
                    PacketView {
                        begin: BEGIN,
                        command: body@.command(),
                        response,
                        vin: vin@,
                        encrypt,
                        body_len: 0,
                        body: body@,
                        bcc: 0,
                    },
                ) == Err::<Seq<u8>, Error>(e),
            },
    {
        let command: Command = body.command_of();
        let frame: Vec<u8> = Self::assemble(BEGIN, command, response, &vin, encrypt, &body)?;
        proof {
            lemma_body_fits(body@);
        }
        let body_len: u16 = (frame.len() - 25) as u16;
        let bcc: u8 = frame[frame.len() - 1];
        Ok(Packet { begin: BEGIN, command, response, vin, encrypt, body_len, body, bcc })
    }

    /// The frame of this packet.
    pub fn to_bytes(&self) -> (r: Result<Vec<u8>, Error>)
        ensures
            match frame_encoding(self@) {
                Ok(frame) => r is Ok && r->Ok_0@ == frame,
                Err(e) => r == Err::<Vec<u8>, Error>(e),
            },
    {
        Self::assemble(
            self.begin,
            self.command,
            self.response,
            &self.vin,
            self.encrypt,
            &self.body,
        )
    }

    /// Writes the frame of this packet: all of it, or nothing.
    pub fn serialize(&self, ser: &mut Serializer) -> (r: Result<(), Error>)
        ensures
            match frame_encoding(self@) {
                Ok(frame) => r is Ok && final(ser)@ == old(ser)@ + frame,
                Err(e) => r == Err::<(), Error>(e) && final(ser)@ == old(ser)@,
            },
    {
        let frame: Vec<u8> = self.to_bytes()?;
        let _ = ser.serialize_bytes(frame.as_slice());
        Ok(())
    }
}

} // verus!
