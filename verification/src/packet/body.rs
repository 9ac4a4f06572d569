//! The bodies of the frames whose layout is known here.

use vstd::prelude::*;

use crate::packet::error::{lift, Error};
use crate::packet::types::{
    lemma_widths, time_decoding, time_encoding, Iccid, IccidOpts, Time,
};
use crate::packet::Command;
use crate::serde::de::{be16, Deserializer};
use crate::serde::gbk::{fixed_decoding, fixed_encoding, Options};
use crate::serde::ser::{u16_encoding, Serializer};

verus! {

/// What every body can do: say which command announces it, and write
/// itself.
pub trait Body {
    /// The command that announces a body of this kind.
    spec fn command(&self) -> Command;

    /// The bytes of the body.
    spec fn encoding(&self) -> Result<Seq<u8>, crate::serde::Error>;

    /// Writes the body: all of its bytes, or none.
    fn serialize(&self, ser: &mut Serializer) -> (r: Result<(), crate::serde::Error>)
        ensures
            final(ser).wrote(old(ser), r, self.encoding()),
    ;
}

/// A vehicle logs in.
#[derive(Debug, PartialEq, Eq)]
pub struct VehicleLogin {
    /// When the data was collected.
    pub at: Time,
    /// The number of this login on its day.
    pub sn: u16,
    /// The identifier of the subscriber card.
    pub iccid: Iccid,
    /// How many energy storage subsystems the vehicle has.
    pub subsys_num: u8,
    /// How many bytes the code of one subsystem has.
    pub subsys_len: u8,
    /// The codes of the subsystems, one after another.
    pub subsys_sn: Vec<u8>,
}

/// The mathematical content of a [`VehicleLogin`].
pub struct VehicleLoginView {
    pub at: Time,
    pub sn: u16,
    pub iccid: Seq<char>,
    pub subsys_num: u8,
    pub subsys_len: u8,
    pub subsys_sn: Seq<u8>,
}

impl View for VehicleLogin {
    type V = VehicleLoginView;

    open spec fn view(&self) -> VehicleLoginView {
        VehicleLoginView {
            at: self.at,
            sn: self.sn,
            iccid: self.iccid@,
            subsys_num: self.subsys_num,
            subsys_len: self.subsys_len,
            subsys_sn: self.subsys_sn@,
        }
    }
}

impl VehicleLoginView {
    /// The block of subsystem codes has as many bytes as the two counts
    /// before it say.
    pub open spec fn well_formed(self) -> bool {
        self.subsys_sn.len() == self.subsys_num as int * self.subsys_len as int
    }
}

/// The number of bytes of a login body before the subsystem codes.
pub const LOGIN_FIXED_LEN: usize = 30;

/// A login body: time (6), sequence number (2), subscriber identifier (20),
/// subsystem count (1), code length (1), then count times length bytes of
/// codes. The fields are read in this order, and the first one that cannot
/// be read decides the error.
pub open spec fn login_decoding(s: Seq<u8>) -> Result<(VehicleLoginView, nat), crate::serde::Error> {
    if s.len() < 28 {
        Err(crate::serde::Error::UnexpectedEof)
    } else {
        match fixed_decoding(s.subrange(8, 28)) {
            Err(e) => Err(e),
            Ok(iccid) => if s.len() < 30 {
                Err(crate::serde::Error::UnexpectedEof)
            } else {
                let n = s[28] as int * s[29] as int;
                if s.len() < 30 + n {
                    Err(crate::serde::Error::UnexpectedEof)
                } else {
                    Ok(
                        (
                            VehicleLoginView {
                                at: time_decoding(s)->Ok_0.0,
                                sn: be16(s[6], s[7]),
                                iccid,
                                subsys_num: s[28],
                                subsys_len: s[29],
                                subsys_sn: s.subrange(30, 30 + n),
                            },
                            (30 + n) as nat,
                        ),
                    )
                }
            },
        }
    }
}

/// The bytes of a login body, field after field. A block of subsystem
/// codes that has not the number of bytes that the two counts before it
/// say has no place in the format: a reader would take another number of
/// bytes for it.
pub open spec fn login_encoding(v: VehicleLoginView) -> Result<Seq<u8>, crate::serde::Error> {
    match fixed_encoding(v.iccid, IccidOpts::LENGTH as nat) {
        Err(e) => Err(e),
        Ok(iccid) => if !v.well_formed() {
            Err(crate::serde::Error::Unsupported)
        } else {
            Ok(
                time_encoding(v.at) + u16_encoding(v.sn) + iccid + seq![
                    v.subsys_num,
                    v.subsys_len,
                ] + v.subsys_sn,
            )
        },
    }
}

impl VehicleLogin {
    fn read_fields(de: &mut Deserializer) -> (r: Result<Self, crate::serde::Error>)
        ensures
            final(de).yields_view(old(de), r, login_decoding(old(de).remaining())),
    {
        let ghost s = de.remaining();
        let mut cursor = de.fork();
        let at: Time = Time::deserialize(&mut cursor)?;
        proof {
            cursor.lemma_after(old(de), 6);
        }
        let sn: u16 = cursor.deserialize_u16()?;
        proof {
            cursor.lemma_after(old(de), 8);
            lemma_widths();
            if s.len() >= 28 {
                assert(cursor.remaining().take(20) =~= s.subrange(8, 28));
            }
        }
        let iccid: Iccid = Iccid::deserialize(&mut cursor)?;
        proof {
            cursor.lemma_after(old(de), 28);
        }
        let subsys_num: u8 = cursor.deserialize_u8()?;
        proof {
            cursor.lemma_after(old(de), 29);
        }
        let subsys_len: u8 = cursor.deserialize_u8()?;
        proof {
            cursor.lemma_after(old(de), 30);
        }
        assert(subsys_num as int * subsys_len as int <= 255 * 255) by (nonlinear_arith)
            requires
                subsys_num <= 255,
                subsys_len <= 255,
        ;
        let len: usize = subsys_num as usize * subsys_len as usize;
        let mut subsys_sn: Vec<u8> = Vec::new();
        if len > 0 {
            subsys_sn = cursor.read_bytes(len)?;
        }
        assert(subsys_sn@ =~= s.subrange(30, 30 + len));
        *de = cursor;
        Ok(Self { at, sn, iccid, subsys_num, subsys_len, subsys_sn })
    }

    /// Reads a login body. Where a field cannot be read, `de` stays where
    /// it was.
    pub fn deserialize(de: &mut Deserializer) -> (r: Result<Self, Error>)
        ensures
            final(de).yields_view(old(de), r, lift(login_decoding(old(de).remaining()))),
    {
        match Self::read_fields(de) {
            Ok(body) => Ok(body),
            Err(e) => Err(Error::Serde(e)),
        }
    }
}

impl Body for VehicleLogin {
    open spec fn command(&self) -> Command {
        Command::VehicleLogin
    }

    open spec fn encoding(&self) -> Result<Seq<u8>, crate::serde::Error> {
        login_encoding(self@)
    }

    fn serialize(&self, ser: &mut Serializer) -> (r: Result<(), crate::serde::Error>) {
        let iccid: Vec<u8> = crate::serde::gbk::encode_fixed(
            self.iccid.message.as_str(),
            IccidOpts::LENGTH,
        )?;
        assert(self.subsys_num as int * self.subsys_len as int <= 255 * 255) by (nonlinear_arith)
            requires
                self.subsys_num <= 255,
                self.subsys_len <= 255,
        ;
        if self.subsys_sn.len() != self.subsys_num as usize * self.subsys_len as usize {
            return Err(crate::serde::Error::Unsupported);
        }
        let _ = self.at.serialize(ser);
        let _ = ser.serialize_u16(self.sn);
        let _ = ser.serialize_bytes(iccid.as_slice());
        let _ = ser.serialize_u8(self.subsys_num);
        let _ = ser.serialize_u8(self.subsys_len);
        let _ = ser.serialize_bytes(self.subsys_sn.as_slice());
        assert(ser@ =~= old(ser)@ + login_encoding(self@)->Ok_0);
        Ok(())
    }
}

/// A vehicle logs out.
#[derive(Debug, Clone, Copy, PartialEq, Eq)]
pub struct VehicleLogout {
    /// When the vehicle logged out.
    pub at: Time,
    /// The number of the login that this logout ends.
    pub sn: u16,
}

/// A logout body: time (6), sequence number (2).
pub open spec fn logout_decoding(s: Seq<u8>) -> Result<(VehicleLogout, nat), crate::serde::Error> {
    if s.len() < 8 {
        Err(crate::serde::Error::UnexpectedEof)
    } else {
        Ok((VehicleLogout { at: time_decoding(s)->Ok_0.0, sn: be16(s[6], s[7]) }, 8))
    }
}

/// The bytes of a logout body.
pub open spec fn logout_encoding(v: VehicleLogout) -> Seq<u8> {
    time_encoding(v.at) + u16_encoding(v.sn)
}

impl VehicleLogout {
    fn read_fields(de: &mut Deserializer) -> (r: Result<Self, crate::serde::Error>)
        ensures
            final(de).yields(old(de), r, logout_decoding(old(de).remaining())),
    {
        let mut cursor = de.fork();
        let at: Time = Time::deserialize(&mut cursor)?;
        proof {
            cursor.lemma_after(old(de), 6);
        }
        let sn: u16 = cursor.deserialize_u16()?;
        *de = cursor;
        Ok(Self { at, sn })
    }

    /// Reads a logout body. Where a field cannot be read, `de` stays where
    /// it was.
    pub fn deserialize(de: &mut Deserializer) -> (r: Result<Self, Error>)
        ensures
            final(de).yields(old(de), r, lift(logout_decoding(old(de).remaining()))),
    {
        match Self::read_fields(de) {
            Ok(body) => Ok(body),
            Err(e) => Err(Error::Serde(e)),
        }
    }
}

impl Body for VehicleLogout {
    open spec fn command(&self) -> Command {
        Command::VehicleLogout
    }

    open spec fn encoding(&self) -> Result<Seq<u8>, crate::serde::Error> {
        Ok(logout_encoding(*self))
    }

    fn serialize(&self, ser: &mut Serializer) -> (r: Result<(), crate::serde::Error>) {
        let _ = self.at.serialize(ser);
        let _ = ser.serialize_u16(self.sn);
        assert(ser@ =~= old(ser)@ + logout_encoding(*self));
        Ok(())
    }
}

/// The body of a frame, of whichever kind.
#[derive(Debug, PartialEq, Eq)]
pub enum Payload {
    VehicleLogin(VehicleLogin),
    VehicleLogout(VehicleLogout),
}

/// The mathematical content of a [`Payload`].
pub enum PayloadView {
    VehicleLogin(VehicleLoginView),
    VehicleLogout(VehicleLogout),
}

impl View for Payload {
    type V = PayloadView;

    open spec fn view(&self) -> PayloadView {
        match self {
            Payload::VehicleLogin(body) => PayloadView::VehicleLogin(body@),
            Payload::VehicleLogout(body) => PayloadView::VehicleLogout(*body),
        }
    }
}

impl PayloadView {
    /// The command that announces this body.
    pub open spec fn command(self) -> Command {
        match self {
            PayloadView::VehicleLogin(_) => Command::VehicleLogin,
            PayloadView::VehicleLogout(_) => Command::VehicleLogout,
        }
    }

}

/// The body that `command` announces, read from the front of `s`. A command
/// with no layout known here is `UnknownCommand`: it is not guessed at.
pub open spec fn payload_decoding(command: u8, s: Seq<u8>) -> Result<(PayloadView, nat), Error> {
    if command == Command::VehicleLogin.discriminant() {
        match login_decoding(s) {
            Ok((body, n)) => Ok((PayloadView::VehicleLogin(body), n)),
            Err(e) => Err(Error::Serde(e)),
        }
    } else if command == Command::VehicleLogout.discriminant() {
        match logout_decoding(s) {
            Ok((body, n)) => Ok((PayloadView::VehicleLogout(body), n)),
            Err(e) => Err(Error::Serde(e)),
        }
    } else {
        Err(Error::UnknownCommand)
    }
}

/// The bytes of a body.
pub open spec fn payload_encoding(body: PayloadView) -> Result<Seq<u8>, crate::serde::Error> {
    match body {
        PayloadView::VehicleLogin(body) => login_encoding(body),
        PayloadView::VehicleLogout(body) => Ok(logout_encoding(body)),
    }
}

/// The longest body: a login with 255 subsystem codes of 255 bytes.
pub const BODY_MAX: usize = 65055;

/// Every body that can be written is short enough for the header to
/// declare its length.
pub proof fn lemma_body_fits(body: PayloadView)
    ensures
        payload_encoding(body) matches Ok(bytes) ==> bytes.len() <= BODY_MAX <= u16::MAX,
{
    if let PayloadView::VehicleLogin(login) = body {
        lemma_widths();
        assert(login.subsys_num as int * login.subsys_len as int <= 255 * 255)
            by (nonlinear_arith)
            requires
                login.subsys_num <= 255,
                login.subsys_len <= 255,
        ;
    }
}

impl Payload {
    /// Reads the body that `command` announces. The choice rests on the
    /// command alone, which the header gave: nothing in the body says of
    /// which kind it is.
    pub fn deserialize(command: u8, de: &mut Deserializer) -> (r: Result<Self, Error>)
        ensures
            final(de).yields_view(
                old(de),
                r,
                payload_decoding(command, old(de).remaining()),
            ),
    {
        match Command::from_u8(command) {
            Some(Command::VehicleLogin) => match VehicleLogin::deserialize(de) {
                Ok(body) => Ok(Payload::VehicleLogin(body)),
                Err(e) => Err(e),
            },
            Some(Command::VehicleLogout) => match VehicleLogout::deserialize(de) {
                Ok(body) => Ok(Payload::VehicleLogout(body)),
                Err(e) => Err(e),
            },
            _ => {
                let _ = de.consumed();
                Err(Error::UnknownCommand)
            },
        }
    }

    /// The command that announces this body.
    pub fn command_of(&self) -> (c: Command)
        ensures
            c == self@.command(),
    {
        match self {
            Payload::VehicleLogin(_) => Command::VehicleLogin,
            Payload::VehicleLogout(_) => Command::VehicleLogout,
        }
    }
}

impl Body for Payload {
    open spec fn command(&self) -> Command {
        self@.command()
    }

    open spec fn encoding(&self) -> Result<Seq<u8>, crate::serde::Error> {
        payload_encoding(self@)
    }

    fn serialize(&self, ser: &mut Serializer) -> (r: Result<(), crate::serde::Error>) {
        match self {
            Payload::VehicleLogin(body) => body.serialize(ser),
            Payload::VehicleLogout(body) => body.serialize(ser),
        }
    }
}

} // verus!
