//! Reading a frame, stage by stage: the header, the body that its command
//! selects, the length that it declares, the checksum.

use vstd::prelude::*;
use vstd::slice::slice_subrange;

use crate::packet::bcc::{checksum, lemma_xor_all_concat, xor_all};
use crate::packet::body::{payload_decoding, Payload};
use crate::packet::error::{lift, Error};
use crate::packet::body::PayloadView;
use crate::packet::{header_decoding, Header, HeaderView, Packet, PacketView, HEADER_LEN};
use crate::serde::de::Deserializer;
use crate::serde::hexstr::{hex_decode, hex_decoding};

verus! {

/// What reading one frame from the front of `s` gives: the packet and the
/// number of bytes of the frame, or the error of the first stage that
/// fails. The stages are: the header; the body that the header's command
/// selects, read from the bytes after the header; the number of bytes that
/// the body took against the length that the header declares; the checksum
/// byte against the exclusive-or of every byte between the begin marker and
/// itself.
pub open spec fn frame_decoding(s: Seq<u8>) -> Result<(PacketView, nat), Error> {
    match header_decoding(s) {
        Err(e) => Err(Error::Serde(e)),
        Ok((header, _)) => match payload_decoding(header.command, s.skip(24)) {
            Err(e) => Err(e),
            Ok((body, used)) => if used != header.body_len {
                Err(Error::BodyLengthMismatch)
            } else if s.len() < 25 + used {
                Err(Error::Serde(crate::serde::Error::UnexpectedEof))
            } else if xor_all(s.subrange(2, 24 + used as int)) != s[24 + used as int] {
                Err(Error::ChecksumMismatch)
            } else {
                Ok(
                    (
                        PacketView {
                            begin: header.begin,
                            command: body.command(),
                            response: header.response,
                            vin: header.vin,
                            encrypt: header.encrypt,
                            body_len: header.body_len,
                            body,
                            bcc: s[24 + used as int],
                        },
                        25 + used,
                    ),
                )
            },
        },
    }
}

/// How far the reading of a frame has come.
#[derive(Debug, PartialEq)]
pub enum Stage {
    /// Nothing has been read.
    AwaitHeader,
    /// The header has been read. `sum` is the exclusive-or of its bytes
    /// after the begin marker.
    HaveHeader { header: Header, sum: u8 },
    /// The body has been read, and took `used` bytes. `sum` is the
    /// exclusive-or of every byte of header and body after the begin marker.
    HaveBody { header: Header, body: Payload, used: usize, sum: u8 },
    /// The frame has been read, and its length and checksum hold.
    Verified(Packet),
    /// The frame is refused. Nothing of it is handed out.
    Failed(Error),
}

/// The mathematical content of a [`Stage`].
pub enum StageView {
    AwaitHeader,
    HaveHeader { header: HeaderView, sum: u8 },
    HaveBody { header: HeaderView, body: PayloadView, used: nat, sum: u8 },
    Verified(PacketView),
    Failed(Error),
}

impl View for Stage {
    type V = StageView;

    open spec fn view(&self) -> StageView {
        match self {
            Stage::AwaitHeader => StageView::AwaitHeader,
            Stage::HaveHeader { header, sum } => StageView::HaveHeader {
                header: header@,
                sum: *sum,
            },
            Stage::HaveBody { header, body, used, sum } => StageView::HaveBody {
                header: header@,
                body: body@,
                used: *used as nat,
                sum: *sum,
            },
            Stage::Verified(packet) => StageView::Verified(packet@),
            Stage::Failed(e) => StageView::Failed(*e),
        }
    }
}

impl StageView {
    /// Nothing follows this stage.
    pub open spec fn terminal(self) -> bool {
        self is Verified || self is Failed
    }
}

/// The stage that follows `stage` when `s` is what remains to be read, and
/// the number of bytes that the step consumes. A step that fails consumes
/// nothing; a stage that nothing follows stays as it is.
pub open spec fn stage_after(stage: StageView, s: Seq<u8>) -> (StageView, nat) {
    match stage {
        StageView::AwaitHeader => match header_decoding(s) {
            Err(e) => (StageView::Failed(Error::Serde(e)), 0),
            Ok((header, n)) => (
                StageView::HaveHeader { header, sum: xor_all(s.subrange(2, 24)) },
                n,
            ),
        },
        StageView::HaveHeader { header, sum } => match payload_decoding(header.command, s) {
            Err(e) => (StageView::Failed(e), 0),
            Ok((body, used)) => (
                StageView::HaveBody { header, body, used, sum: sum ^ xor_all(s.take(used as int)) },
                used,
            ),
        },
        StageView::HaveBody { header, body, used, sum } => if used != header.body_len {
            (StageView::Failed(Error::BodyLengthMismatch), 0)
        } else if s.len() < 1 {
            (StageView::Failed(Error::Serde(crate::serde::Error::UnexpectedEof)), 0)
        } else if s[0] != sum {
            (StageView::Failed(Error::ChecksumMismatch), 0)
        } else {
            (
                StageView::Verified(
                    PacketView {
                        begin: header.begin,
                        command: body.command(),
                        response: header.response,
                        vin: header.vin,
                        encrypt: header.encrypt,
                        body_len: header.body_len,
                        body,
                        bcc: s[0],
                    },
                ),
                1,
            )
        },
        StageView::Verified(packet) => (StageView::Verified(packet), 0),
        StageView::Failed(e) => (StageView::Failed(e), 0),
    }
}

/// The stage reached from `AwaitHeader` in three steps over `s`, and the
/// number of bytes consumed on the way.
pub open spec fn stages_run(s: Seq<u8>) -> (StageView, nat) {
    let (first, n1) = stage_after(StageView::AwaitHeader, s);
    let (second, n2) = stage_after(first, s.skip(n1 as int));
    let (third, n3) = stage_after(second, s.skip((n1 + n2) as int));
    (third, n1 + n2 + n3)
}

/// Three steps from `AwaitHeader` end in `Verified` with the packet that
/// the frame holds, or in `Failed` with the error of the first stage that
/// fails: the stages read a frame as `frame_decoding` says.
pub proof fn lemma_stages_run(s: Seq<u8>)
    ensures
        stages_run(s).0.terminal(),
        match frame_decoding(s) {
            Ok((packet, n)) => stages_run(s) == (StageView::Verified(packet), n),
            Err(e) => stages_run(s).0 == StageView::Failed(e),
        },
{
    if let Ok((header, _)) = header_decoding(s) {
        let rest = s.skip(24);
        if let Ok((body, used)) = payload_decoding(header.command, rest) {
            lemma_payload_within(header.command, rest);
            lemma_xor_all_concat(s.subrange(2, 24), rest.take(used as int));
            assert(s.subrange(2, 24) + rest.take(used as int) =~= s.subrange(2, 24 + used as int));
            let tail = s.skip((24 + used) as int);
            assert(tail.len() == s.len() - 24 - used);
            if tail.len() >= 1 {
                assert(tail[0] == s[24 + used as int]);
            }
        }
    }
}

/// A body that is read lies within the bytes it is read from.
pub proof fn lemma_payload_within(command: u8, s: Seq<u8>)
    ensures
        payload_decoding(command, s) matches Ok((_, used)) ==> used <= s.len(),
{
}

/// Reads the header of a frame.
pub fn parse_header(de: &mut Deserializer) -> (r: Result<Header, Error>)
    ensures
        final(de).yields_view(old(de), r, lift(header_decoding(old(de).remaining()))),
{
    match Header::deserialize(de) {
        Ok(header) => Ok(header),
        Err(e) => Err(Error::Serde(e)),
    }
}

/// Reads the body that the header's command selects.
pub fn parse_body(header: &Header, de: &mut Deserializer) -> (r: Result<Payload, Error>)
    ensures
        final(de).yields_view(
            old(de),
            r,
            payload_decoding(header@.command, old(de).remaining()),
        ),
{
    Payload::deserialize(header.command.0, de)
}

/// Holds the number of bytes that the body took against the length that
/// the header declares.
pub fn check_body_len(header: &Header, used: usize) -> (r: Result<(), Error>)
    ensures
        r is Ok <==> used == header@.body_len,
        r is Err ==> r == Err::<(), Error>(Error::BodyLengthMismatch),
{
    if used == header.body_len as usize {
        Ok(())
    } else {
        Err(Error::BodyLengthMismatch)
    }
}

/// Takes one step: reads what the stage waits for, and says which stage
/// follows. A step that fails leaves `de` where it was.
pub fn advance(stage: Stage, de: &mut Deserializer) -> (next: Stage)
    ensures
        next@ == stage_after(stage@, old(de).remaining()).0,
        final(de).after(old(de), stage_after(stage@, old(de).remaining()).1),
{
    let ghost s = de.remaining();
    let _ = de.consumed();
    match stage {
        Stage::AwaitHeader => {
            let mut cursor = de.fork();
            match parse_header(&mut cursor) {
                Err(e) => Stage::Failed(e),
                Ok(header) => match de.read_bytes(HEADER_LEN) {
                    Err(e) => {
                        // a header was read, so its bytes are there
                        proof {
                            assert(false);
                        }
                        Stage::Failed(Error::Serde(e))
                    },
                    Ok(raw) => {
                        let covered = slice_subrange(raw.as_slice(), 2, HEADER_LEN);
                        assert(covered@ =~= s.subrange(2, 24));
                        Stage::HaveHeader { header, sum: checksum(covered) }
                    },
                },
            }
        },
        Stage::HaveHeader { header, sum } => {
            let mut cursor = de.fork();
            match parse_body(&header, &mut cursor) {
                Err(e) => Stage::Failed(e),
                Ok(body) => {
                    let used: usize = cursor.consumed() - de.consumed();
                    match de.read_bytes(used) {
                        Err(e) => {
                            // a body was read, so its bytes are there
                            proof {
                                assert(false);
                            }
                            Stage::Failed(Error::Serde(e))
                        },
                        Ok(raw) => Stage::HaveBody {
                            header,
                            body,
                            used,
                            sum: sum ^ checksum(raw.as_slice()),
                        },
                    }
                },
            }
        },
        Stage::HaveBody { header, body, used, sum } => {
            match check_body_len(&header, used) {
                Err(e) => { return Stage::Failed(e); },
                Ok(()) => {},
            }
            let mut cursor = de.fork();
            match cursor.deserialize_u8() {
                Err(e) => Stage::Failed(Error::Serde(e)),
                Ok(bcc) => if bcc != sum {
                    Stage::Failed(Error::ChecksumMismatch)
                } else {
                    *de = cursor;
                    let command = body.command_of();
                    Stage::Verified(
                        Packet {
                            begin: header.begin,
                            command,
                            response: header.response,
                            vin: header.vin,
                            encrypt: header.encrypt,
                            body_len: header.body_len,
                            body,
                            bcc,
                        },
                    )
                },
            }
        },
        Stage::Verified(packet) => Stage::Verified(packet),
        Stage::Failed(e) => Stage::Failed(e),
    }
}

/// Reads one frame, stage by stage. Where any stage fails, `de` stays where
/// it was, and no part of a packet is returned.
pub fn parse_packet(de: &mut Deserializer) -> (r: Result<Packet, Error>)
    ensures
        final(de).yields_view(old(de), r, frame_decoding(old(de).remaining())),
{
    let ghost s = de.remaining();
    let _ = de.consumed();
    let mut cursor = de.fork();
    let first = advance(Stage::AwaitHeader, &mut cursor);
    proof {
        cursor.lemma_after(old(de), stage_after(StageView::AwaitHeader, s).1);
    }
    let ghost mid = cursor;
    let second = advance(first, &mut cursor);
    proof {
        cursor.lemma_after(&mid, stage_after(first@, mid.remaining()).1);
        cursor.lemma_after(
            old(de),
            stage_after(StageView::AwaitHeader, s).1 + stage_after(first@, mid.remaining()).1,
        );
    }
    let third = advance(second, &mut cursor);
    proof {
        lemma_stages_run(s);
    }
    match third {
        Stage::Verified(packet) => {
            *de = cursor;
            Ok(packet)
        },
        Stage::Failed(e) => Err(e),
        _ => {
            // three steps always reach a stage that nothing follows
            proof {
                assert(false);
            }
            Err(Error::UnknownCommand)
        },
    }
}

/// Reads one frame from the front of `data`.
pub fn parse_bytes(data: &[u8]) -> (r: Result<Packet, Error>)
    ensures
        match frame_decoding(data@) {
            Ok((packet, _)) => r is Ok && r->Ok_0@ == packet,
            Err(e) => r == Err::<Packet, Error>(e),
        },
{
    let mut de = Deserializer::new(data);
    parse_packet(&mut de)
}

/// Reads one frame from its hexadecimal text.
pub fn pares_hex(text: &str) -> (r: Result<Packet, Error>)
    ensures
        match hex_decoding(text@) {
            None => r is Err && r->Err_0 is HexString,
            Some(data) => match frame_decoding(data) {
                Ok((packet, _)) => r is Ok && r->Ok_0@ == packet,
                Err(e) => r == Err::<Packet, Error>(e),
            },
        },
{
    let data: Vec<u8> = match hex_decode(text) {
        Ok(data) => data,
        Err(e) => { return Err(Error::HexString(e)); },
    };
    parse_bytes(data.as_slice())
}

} // verus!
