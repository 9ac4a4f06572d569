//! What holds of reading and writing frames, whatever the frame.

use vstd::prelude::*;

use crate::packet::bcc::{flip_bit, lemma_single_bit_flip_changes_checksum, xor_all};
use crate::packet::body::{
    lemma_body_fits, login_decoding, login_encoding, logout_decoding, logout_encoding, payload_decoding,
    payload_encoding, PayloadView, VehicleLoginView, VehicleLogout,
};
use crate::packet::error::Error;
use crate::packet::parser::frame_decoding;
use crate::packet::types::{lemma_widths, time_decoding, time_encoding, Time};
use crate::packet::{
    frame_encoding, header_decoding, header_encoding, Command, HeaderView, PacketView,
};
use crate::serde::gbk::{
    field_canonical, fixed_encoding, gbk_faithful, lemma_fixed_round_trip, text_survives,
};
use crate::serde::ser::lemma_u16_round_trip;

verus! {

/// Each text of the packet is read back from its field as it was written
/// there.
pub open spec fn texts_survive(p: PacketView) -> bool {
    &&& text_survives(p.vin, 17)
    &&& p.body matches PayloadView::VehicleLogin(body) ==> text_survives(body.iccid, 20)
}

/// Every text field of the frame at the front of `s` holds nothing but its
/// text.
pub open spec fn fields_canonical(s: Seq<u8>) -> bool {
    &&& field_canonical(s.subrange(4, 21))
    &&& s[2] == Command::VehicleLogin.discriminant() ==> field_canonical(s.subrange(32, 52))
}

/// The texts of a packet are read back from their fields where GBK is
/// faithful to them.
pub proof fn lemma_faithful_texts_survive(p: PacketView)
    requires
        gbk_faithful(p.vin),
        p.body matches PayloadView::VehicleLogin(body) ==> gbk_faithful(body.iccid),
    ensures
        texts_survive(p),
{
    lemma_fixed_round_trip(p.vin, 17);
    if let PayloadView::VehicleLogin(body) = p.body {
        lemma_fixed_round_trip(body.iccid, 20);
    }
}

/// A moment is read back from its six bytes, whatever follows them.
pub proof fn lemma_time_round_trip(t: Time, rest: Seq<u8>)
    ensures
        time_decoding(time_encoding(t) + rest) == Ok::<(Time, nat), crate::serde::Error>((t, 6)),
{
}

/// A header is read back from its bytes, whatever follows them, where the
/// vehicle identifier is read back from its field.
pub proof fn lemma_header_round_trip(h: HeaderView, rest: Seq<u8>)
    requires
        header_encoding(h) is Ok,
        text_survives(h.vin, 17),
    ensures
        header_encoding(h)->Ok_0.len() == 24,
        header_decoding(header_encoding(h)->Ok_0 + rest) == Ok::<
            (HeaderView, nat),
            crate::serde::Error,
        >((h, 24)),
{
    lemma_widths();
    let vin = fixed_encoding(h.vin, 17)->Ok_0;
    let s = header_encoding(h)->Ok_0 + rest;
    assert(s.subrange(4, 21) =~= vin);
    lemma_u16_round_trip(h.begin, 0, 0);
    lemma_u16_round_trip(h.body_len, 0, 0);
}

/// A login body is read back from its bytes, whatever follows them, where
/// the subscriber identifier is read back from its field.
pub proof fn lemma_login_round_trip(v: VehicleLoginView, rest: Seq<u8>)
    requires
        login_encoding(v) is Ok,
        text_survives(v.iccid, 20),
    ensures
        login_decoding(login_encoding(v)->Ok_0 + rest) == Ok::<
            (VehicleLoginView, nat),
            crate::serde::Error,
        >((v, login_encoding(v)->Ok_0.len())),
{
    lemma_widths();
    let iccid = fixed_encoding(v.iccid, 20)->Ok_0;
    let s = login_encoding(v)->Ok_0 + rest;
    assert(s.subrange(8, 28) =~= iccid);
    lemma_u16_round_trip(v.sn, 0, 0);
    let n = v.subsys_num as int * v.subsys_len as int;
    assert(s.subrange(30, 30 + n) =~= v.subsys_sn);
    let t = time_decoding(s)->Ok_0.0;
    assert(t == v.at);
}

/// A logout body is read back from its bytes, whatever follows them.
pub proof fn lemma_logout_round_trip(v: VehicleLogout, rest: Seq<u8>)
    ensures
        logout_decoding(logout_encoding(v) + rest) == Ok::<
            (VehicleLogout, nat),
            crate::serde::Error,
        >((v, 8)),
{
    let s = logout_encoding(v) + rest;
    lemma_u16_round_trip(v.sn, 0, 0);
    let t = time_decoding(s)->Ok_0.0;
    assert(t == v.at);
}

/// Reading what was written gives the packet back: for every valid packet
/// whose texts are read back from their fields, the frame of the packet is
/// read as that packet, field for field, and the whole frame is consumed.
pub proof fn lemma_decode_encode(p: PacketView)
    requires
        p.valid(),
        texts_survive(p),
    ensures
        frame_decoding(frame_encoding(p)->Ok_0) == Ok::<(PacketView, nat), Error>(
            (p, frame_encoding(p)->Ok_0.len()),
        ),
{
    lemma_widths();
    let body = payload_encoding(p.body)->Ok_0;
    lemma_body_fits(p.body);
    let h = HeaderView {
        begin: p.begin,
        command: p.command.discriminant(),
        response: p.response,
        vin: p.vin,
        encrypt: p.encrypt,
        body_len: body.len() as u16,
    };
    let head = header_encoding(h)->Ok_0;
    let bcc = xor_all((head + body).skip(2));
    let s = frame_encoding(p)->Ok_0;
    assert(s == (head + body).push(bcc));
    assert(s =~= head + (body + seq![bcc]));
    lemma_header_round_trip(h, body + seq![bcc]);
    assert(s.skip(24) =~= body + seq![bcc]);
    match p.body {
        PayloadView::VehicleLogin(login) => {
            lemma_login_round_trip(login, seq![bcc]);
        },
        PayloadView::VehicleLogout(logout) => {
            lemma_logout_round_trip(logout, seq![bcc]);
        },
    }
    assert(s.subrange(2, 24 + body.len() as int) =~= (head + body).skip(2));
}

/// Writing what was read gives the bytes back: where a frame is read from
/// the front of `s`, and its text fields hold nothing but their texts, the
/// packet that was read is valid and its frame is the bytes that were
/// consumed.
pub proof fn lemma_encode_decode(s: Seq<u8>)
    requires
        frame_decoding(s) is Ok,
        fields_canonical(s),
    ensures
        frame_decoding(s)->Ok_0.0.valid(),
        frame_encoding(frame_decoding(s)->Ok_0.0) == Ok::<Seq<u8>, Error>(
            s.take(frame_decoding(s)->Ok_0.1 as int),
        ),
{
    lemma_widths();
    let (p, n) = frame_decoding(s)->Ok_0;
    let (h, _) = header_decoding(s)->Ok_0;
    let rest = s.skip(24);
    let (body, used) = payload_decoding(h.command, rest)->Ok_0;
    lemma_u16_round_trip(0, s[0], s[1]);
    lemma_u16_round_trip(0, s[22], s[23]);
    let bytes = s.subrange(24, 24 + used as int);
    match body {
        PayloadView::VehicleLogin(login) => {
            lemma_u16_round_trip(0, rest[6], rest[7]);
            assert(rest.subrange(8, 28) =~= s.subrange(32, 52));
            assert(login_encoding(login)->Ok_0 =~= bytes);
        },
        PayloadView::VehicleLogout(logout) => {
            lemma_u16_round_trip(0, rest[6], rest[7]);
            assert(logout_encoding(logout) =~= bytes);
        },
    }
    assert(payload_encoding(body) == Ok::<Seq<u8>, crate::serde::Error>(bytes));
    let h2 = HeaderView {
        begin: p.begin,
        command: p.command.discriminant(),
        response: p.response,
        vin: p.vin,
        encrypt: p.encrypt,
        body_len: bytes.len() as u16,
    };
    assert(h2 == h);
    let head = header_encoding(h)->Ok_0;
    assert(head =~= s.take(24));
    assert((head + bytes).skip(2) =~= s.subrange(2, 24 + used as int));
    assert((head + bytes).push(s[24 + used as int]) =~= s.take(n as int));
}

/// A declared body length that is not the number of bytes that the body
/// takes is never let through: the frame is refused with
/// `BodyLengthMismatch`, whatever its checksum.
pub proof fn lemma_body_length_enforced(s: Seq<u8>)
    requires
        header_decoding(s) is Ok,
        payload_decoding(header_decoding(s)->Ok_0.0.command, s.skip(24)) is Ok,
        payload_decoding(header_decoding(s)->Ok_0.0.command, s.skip(24))->Ok_0.1
            != header_decoding(s)->Ok_0.0.body_len,
    ensures
        frame_decoding(s) == Err::<(PacketView, nat), Error>(Error::BodyLengthMismatch),
{
}

/// A frame with one bit inverted anywhere between its begin marker and its
/// checksum byte is refused. Where the damage leaves the header and the
/// body readable and the body as long as declared, the error is
/// `ChecksumMismatch`; else it is the error of the stage that the damage
/// breaks, which comes before the checksum is looked at.
pub proof fn lemma_damaged_frame_refused(s: Seq<u8>, i: int, bit: u8)
    requires
        frame_decoding(s) is Ok,
        2 <= i < frame_decoding(s)->Ok_0.1 - 1,
        bit < 8,
    ensures
        frame_decoding(s.update(i, flip_bit(s[i], bit))) is Err,
        ({
            let damaged = s.update(i, flip_bit(s[i], bit));
            let header = header_decoding(damaged);
            &&& header is Ok
            &&& payload_decoding(header->Ok_0.0.command, damaged.skip(24)) matches Ok((_, used))
            &&& used == header->Ok_0.0.body_len
        }) ==> frame_decoding(s.update(i, flip_bit(s[i], bit))) == Err::<(PacketView, nat), Error>(
            Error::ChecksumMismatch,
        ),
{
    let damaged = s.update(i, flip_bit(s[i], bit));
    let (h, _) = header_decoding(s)->Ok_0;
    let (body, used) = payload_decoding(h.command, s.skip(24))->Ok_0;
    let b = s[i];
    assert(bit < 8 ==> b ^ (1u8 << bit) != b) by (bit_vector);
    if header_decoding(damaged) is Ok {
        let (h2, _) = header_decoding(damaged)->Ok_0;
        if payload_decoding(h2.command, damaged.skip(24)) is Ok {
            let (body2, used2) = payload_decoding(h2.command, damaged.skip(24))->Ok_0;
            if used2 == h2.body_len {
                if i == 22 || i == 23 {
                    assert(damaged.skip(24) =~= s.skip(24));
                    assert(h2.command == h.command);
                    assert(h2.body_len != h.body_len);
                } else {
                    assert(h2.body_len == h.body_len);
                    assert(used2 == used);
                    let covered = s.subrange(2, 24 + used as int);
                    lemma_single_bit_flip_changes_checksum(covered, i - 2, bit);
                    assert(damaged.subrange(2, 24 + used as int) =~= covered.update(
                        i - 2,
                        flip_bit(covered[i - 2], bit),
                    ));
                }
            }
        }
    }
}

/// A floating-point field cannot be read: it is refused as `Unsupported`,
/// whatever the bytes, and never turned into something else.
pub proof fn lemma_float_unsupported(s: Seq<u8>)
    ensures
        crate::serde::de::value_decoding(crate::serde::value::Shape::Float, s) == Err::<
            (crate::serde::value::ValueView, nat),
            crate::serde::Error,
        >(crate::serde::Error::Unsupported),
        crate::serde::de::value_decoding(crate::serde::value::Shape::Double, s) == Err::<
            (crate::serde::value::ValueView, nat),
            crate::serde::Error,
        >(crate::serde::Error::Unsupported),
{
}

} // verus!
