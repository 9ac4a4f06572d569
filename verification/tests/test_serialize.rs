use vin::packet::body::{Body, Payload, VehicleLogin, VehicleLogout};
use vin::packet::error::Error;
use vin::packet::parser::{
    advance, check_body_len, pares_hex, parse_body, parse_bytes, parse_header, parse_packet, Stage,
};
use vin::packet::types::Time;
use vin::packet::{Command, Encrypt, Header, Iccid, MyCommand, Packet, Response, Vin, BEGIN, HEADER_LEN};
use vin::serde::{Deserializer, Serializer};

const LOGIN: &str = "232301fe4c5a595442474257364a3130313431393401001e120a1e14233600fd383938363034303231303137303031373937373901005c";

fn login_frame() -> Vec<u8> {
    hex::decode(LOGIN).unwrap()
}

fn logout_frame() -> Vec<u8> {
    let packet = Packet::new(
        Response::Command,
        Vin::from("LZYTBGBW6J1014194".to_string()),
        Encrypt::Plain,
        Payload::VehicleLogout(VehicleLogout {
            at: Time { year: 18, month: 10, day: 30, hour: 20, minute: 35, second: 54 },
            sn: 253,
        }),
    )
    .unwrap();
    packet.to_bytes().unwrap()
}

fn bcc_of(frame: &[u8]) -> u8 {
    vin::packet::bcc::checksum(&frame[2..frame.len() - 1])
}

#[test]
fn test_vehicle_login() {
    let text = "232301fe4c5a595442474257364a3130313431393401001e120a1e14233600fd383938363034303231303137303031373937373901005c" ;
    vin::packet::parser::pares_hex(text).unwrap();
}

#[test]
fn login_frame_is_read_field_for_field() {
    let packet = pares_hex(LOGIN).unwrap();
    assert_eq!(packet.begin, 0x2323);
    assert_eq!(packet.begin, BEGIN);
    assert_eq!(packet.command, Command::VehicleLogin);
    assert_eq!(packet.response, Response::Command);
    assert_eq!(packet.vin.message, "LZYTBGBW6J1014194");
    assert_eq!(packet.encrypt, Encrypt::Plain);
    assert_eq!(packet.body_len, 30);
    assert_eq!(packet.bcc, 0x5c);
    let expected = VehicleLogin {
        at: Time { year: 18, month: 10, day: 30, hour: 20, minute: 35, second: 54 },
        sn: 253,
        iccid: Iccid::from("89860402101700179779".to_string()),
        subsys_num: 1,
        subsys_len: 0,
        subsys_sn: vec![],
    };
    assert_eq!(packet.body, Payload::VehicleLogin(expected));
}

#[test]
fn upper_case_digits_are_read_too() {
    let upper = LOGIN.to_uppercase();
    assert_eq!(pares_hex(&upper).unwrap(), pares_hex(LOGIN).unwrap());
}

#[test]
fn text_that_is_not_hexadecimal_is_refused() {
    assert_eq!(
        pares_hex("2323zz"),
        Err(Error::HexString(hex::FromHexError::InvalidHexCharacter { c: 'z', index: 4 }))
    );
    assert_eq!(pares_hex("232"), Err(Error::HexString(hex::FromHexError::OddLength)));
}

#[test]
fn header_alone_is_read() {
    let frame = login_frame();
    let mut de = Deserializer::new(&frame);
    let header = parse_header(&mut de).unwrap();
    assert_eq!(
        header,
        Header {
            begin: 0x2323,
            command: MyCommand(0x01),
            response: Response::Command,
            vin: Vin::from("LZYTBGBW6J1014194".to_string()),
            encrypt: Encrypt::Plain,
            body_len: 30,
        }
    );
    assert_eq!(de.consumed(), 24);
    assert_eq!(de.consumed(), HEADER_LEN);
    assert_eq!(de.remaining_len(), 31);
    let body = parse_body(&header, &mut de).unwrap();
    assert_eq!(de.consumed(), 54);
    assert!(matches!(body, Payload::VehicleLogin(_)));
    assert_eq!(check_body_len(&header, 30), Ok(()));
    assert_eq!(check_body_len(&header, 29), Err(Error::BodyLengthMismatch));
}

#[test]
fn short_header_is_end_of_input_whatever_it_holds() {
    let frame = login_frame();
    for n in 0..24usize {
        let mut de = Deserializer::new(&frame[..n]);
        assert_eq!(
            parse_header(&mut de),
            Err(Error::Serde(vin::serde::Error::UnexpectedEof))
        );
        assert_eq!(de.consumed(), 0);
    }
    // a response byte that names nothing, in a header that is too short:
    // the length is looked at first
    let mut short = frame[..10].to_vec();
    short[3] = 0x77;
    assert_eq!(parse_bytes(&short), Err(Error::Serde(vin::serde::Error::UnexpectedEof)));
}

#[test]
fn header_fields_are_checked_in_order() {
    let frame = login_frame();
    let mut bad_response = frame.clone();
    bad_response[3] = 0x03;
    bad_response[21] = 0x09;
    assert_eq!(
        parse_bytes(&bad_response),
        Err(Error::Serde(vin::serde::Error::UnknownDiscriminant))
    );
    let mut bad_vin = frame.clone();
    bad_vin[4] = 0xff;
    bad_vin[21] = 0x09;
    assert_eq!(parse_bytes(&bad_vin), Err(Error::Serde(vin::serde::Error::GBK)));
    let mut bad_encrypt = frame.clone();
    bad_encrypt[21] = 0x00;
    assert_eq!(
        parse_bytes(&bad_encrypt),
        Err(Error::Serde(vin::serde::Error::UnknownDiscriminant))
    );
}

#[test]
fn discriminants_are_those_of_the_wire() {
    let commands = [
        (Command::VehicleLogin, 0x01u8),
        (Command::RealTimeReport, 0x02),
        (Command::ReissueReport, 0x03),
        (Command::VehicleLogout, 0x04),
        (Command::PlatformLogin, 0x05),
        (Command::PlatformLogout, 0x06),
        (Command::HeartBeat, 0x07),
        (Command::Time, 0x08),
    ];
    for (command, code) in commands {
        assert_eq!(command.to_u8(), code);
        assert_eq!(Command::from_u8(code), Some(command));
    }
    assert_eq!(Command::from_u8(0), None);
    assert_eq!(Command::from_u8(9), None);
    let responses = [
        (Response::Success, 0x00u8),
        (Response::Fail, 0x01),
        (Response::DupVin, 0x02),
        (Response::Command, 0xFE),
    ];
    for (response, code) in responses {
        assert_eq!(response.to_u8(), code);
        assert_eq!(Response::from_u8(code), Some(response));
    }
    assert_eq!(Response::from_u8(3), None);
    assert_eq!(Response::from_u8(0xFF), None);
    let modes = [(Encrypt::Plain, 0x01u8), (Encrypt::Rsa, 0x02), (Encrypt::Aes128, 0x03)];
    for (mode, code) in modes {
        assert_eq!(mode.to_u8(), code);
        assert_eq!(Encrypt::from_u8(code), Some(mode));
    }
    assert_eq!(Encrypt::from_u8(0), None);
    assert_eq!(Encrypt::from_u8(4), None);
}

#[test]
fn command_without_a_body_known_here_is_unknown() {
    for code in [0x00u8, 0x02, 0x03, 0x05, 0x06, 0x07, 0x08, 0x09, 0xff] {
        let mut frame = login_frame();
        frame[2] = code;
        assert_eq!(parse_bytes(&frame), Err(Error::UnknownCommand));
        let mut de = Deserializer::new(&frame[24..]);
        assert_eq!(Payload::deserialize(code, &mut de), Err(Error::UnknownCommand));
        assert_eq!(de.consumed(), 0);
    }
}

#[test]
fn declared_length_ten_with_a_body_of_eight_is_a_mismatch() {
    let mut frame = logout_frame();
    assert_eq!(frame.len(), 24 + 8 + 1);
    assert_eq!(&frame[22..24], &[0, 8]);
    assert!(parse_bytes(&frame).is_ok());
    // declare ten, and supply the two bytes and a checksum that fits
    frame[23] = 10;
    frame.pop();
    frame.push(0);
    frame.push(0);
    frame.push(0);
    let last = frame.len() - 1;
    frame[last] = bcc_of(&frame);
    assert_eq!(parse_bytes(&frame), Err(Error::BodyLengthMismatch));
    let mut de = Deserializer::new(&frame);
    assert_eq!(parse_packet(&mut de), Err(Error::BodyLengthMismatch));
    assert_eq!(de.consumed(), 0);
}

#[test]
fn login_body_longer_or_shorter_than_declared_is_a_mismatch() {
    let mut frame = login_frame();
    frame[23] = 31;
    assert_eq!(parse_bytes(&frame), Err(Error::BodyLengthMismatch));
    frame[23] = 29;
    assert_eq!(parse_bytes(&frame), Err(Error::BodyLengthMismatch));
}

#[test]
fn body_cut_short_is_end_of_input() {
    let frame = login_frame();
    for n in 24..54usize {
        assert_eq!(
            parse_bytes(&frame[..n]),
            Err(Error::Serde(vin::serde::Error::UnexpectedEof))
        );
    }
    // the whole body, and no checksum byte
    assert_eq!(
        parse_bytes(&frame[..54]),
        Err(Error::Serde(vin::serde::Error::UnexpectedEof))
    );
}

#[test]
fn checksum_is_the_exclusive_or_of_the_covered_bytes() {
    assert_eq!(vin::packet::bcc::checksum(&[]), 0);
    assert_eq!(vin::packet::bcc::checksum(&[0x5a]), 0x5a);
    assert_eq!(vin::packet::bcc::checksum(&[0x01, 0x02, 0x04, 0x80]), 0x87);
    assert_eq!(vin::packet::bcc::checksum(&[0xff, 0xff]), 0);
    let frame = login_frame();
    assert_eq!(bcc_of(&frame), 0x5c);
    assert_eq!(vin::packet::bcc::verify_checksum(&frame[2..54], 0x5c), Ok(()));
    assert_eq!(
        vin::packet::bcc::verify_checksum(&frame[2..54], 0x5d),
        Err(Error::ChecksumMismatch)
    );
}

#[test]
fn any_single_inverted_bit_is_refused() {
    let frame = login_frame();
    for i in 2..frame.len() - 1 {
        for bit in 0..8u8 {
            let mut damaged = frame.clone();
            damaged[i] ^= 1 << bit;
            assert!(parse_bytes(&damaged).is_err(), "byte {} bit {}", i, bit);
        }
    }
}

#[test]
fn inverted_bit_in_a_plain_field_is_a_checksum_mismatch() {
    let frame = login_frame();
    // the time and the sequence number of the body: bytes 24 to 31
    for i in 24..32usize {
        for bit in 0..8u8 {
            let mut damaged = frame.clone();
            damaged[i] ^= 1 << bit;
            assert_eq!(parse_bytes(&damaged), Err(Error::ChecksumMismatch));
        }
    }
    // the checksum byte itself
    let mut damaged = frame.clone();
    damaged[54] ^= 0x10;
    assert_eq!(parse_bytes(&damaged), Err(Error::ChecksumMismatch));
}

#[test]
fn inverted_bit_in_the_command_is_an_unknown_command() {
    let mut damaged = login_frame();
    damaged[2] ^= 0x02;
    assert_eq!(parse_bytes(&damaged), Err(Error::UnknownCommand));
}

#[test]
fn frame_written_from_a_packet_is_read_as_that_packet() {
    let login = VehicleLogin {
        at: Time { year: 24, month: 2, day: 29, hour: 23, minute: 59, second: 58 },
        sn: 0xABCD,
        iccid: Iccid::from("8986".to_string()),
        subsys_num: 2,
        subsys_len: 3,
        subsys_sn: vec![1, 2, 3, 4, 5, 6],
    };
    let packet = Packet::new(
        Response::Success,
        Vin::from("京A12345".to_string()),
        Encrypt::Aes128,
        Payload::VehicleLogin(login),
    )
    .unwrap();
    assert_eq!(packet.begin, 0x2323);
    assert_eq!(packet.command, Command::VehicleLogin);
    assert_eq!(packet.body_len, 36);
    let frame = packet.to_bytes().unwrap();
    assert_eq!(frame.len(), 24 + 36 + 1);
    assert_eq!(&frame[..4], &[0x23, 0x23, 0x01, 0x00]);
    // two bytes for the first character, one for each of the others, then zeros
    assert_eq!(
        &frame[4..21],
        &[0xbe, 0xa9, 0x41, 0x31, 0x32, 0x33, 0x34, 0x35, 0, 0, 0, 0, 0, 0, 0, 0, 0]
    );
    assert_eq!(&frame[21..24], &[0x03, 0x00, 36]);
    assert_eq!(&frame[24..32], &[24, 2, 29, 23, 59, 58, 0xAB, 0xCD]);
    assert_eq!(&frame[32..36], b"8986");
    assert_eq!(&frame[36..52], &[0u8; 16]);
    assert_eq!(&frame[52..60], &[2, 3, 1, 2, 3, 4, 5, 6]);
    assert_eq!(frame[60], bcc_of(&frame));
    assert_eq!(packet.bcc, frame[60]);
    assert_eq!(parse_bytes(&frame).unwrap(), packet);
}

#[test]
fn frame_that_was_read_is_written_as_it_was() {
    let frame = login_frame();
    let packet = parse_bytes(&frame).unwrap();
    assert_eq!(packet.to_bytes().unwrap(), frame);
    let mut ser = Serializer::new();
    ser.serialize_u8(0xEE).unwrap();
    packet.serialize(&mut ser).unwrap();
    let written = ser.into_bytes();
    assert_eq!(written[0], 0xEE);
    assert_eq!(&written[1..], &frame[..]);
}

#[test]
fn bytes_after_the_frame_are_left_alone() {
    let mut input = login_frame();
    input.extend_from_slice(&[1, 2, 3]);
    let mut de = Deserializer::new(&input);
    let packet = parse_packet(&mut de).unwrap();
    assert_eq!(packet.body_len, 30);
    assert_eq!(de.consumed(), 55);
    assert_eq!(de.remaining_len(), 3);
}

#[test]
fn junk_after_the_zero_byte_of_a_field_is_not_written_again() {
    let mut frame = login_frame();
    // a vehicle identifier of 16 characters, a zero byte, and one more byte
    frame[19] = 0;
    let last = frame.len() - 1;
    frame[last] = bcc_of(&frame);
    let packet = parse_bytes(&frame).unwrap();
    assert_eq!(packet.vin.message, "LZYTBGBW6J10141");
    let again = packet.to_bytes().unwrap();
    assert_ne!(again, frame);
    assert_eq!(again[20], 0);
    assert_eq!(frame[20], 0x34);
}

#[test]
fn packet_whose_text_does_not_fit_is_not_written() {
    let logout = VehicleLogout {
        at: Time { year: 1, month: 2, day: 3, hour: 4, minute: 5, second: 6 },
        sn: 7,
    };
    let too_long = Packet::new(
        Response::Success,
        Vin::from("123456789012345678".to_string()),
        Encrypt::Plain,
        Payload::VehicleLogout(logout),
    );
    assert_eq!(too_long, Err(Error::Serde(vin::serde::Error::GbkTooLarge)));
    let no_gbk = Packet::new(
        Response::Success,
        Vin::from("\u{1F600}".to_string()),
        Encrypt::Plain,
        Payload::VehicleLogout(logout),
    );
    assert_eq!(no_gbk, Err(Error::Serde(vin::serde::Error::GBK)));
    let login = VehicleLogin {
        at: logout.at,
        sn: 7,
        iccid: Iccid::from("123456789012345678901".to_string()),
        subsys_num: 0,
        subsys_len: 0,
        subsys_sn: vec![],
    };
    let mut ser = Serializer::new();
    assert_eq!(login.serialize(&mut ser), Err(vin::serde::Error::GbkTooLarge));
    assert_eq!(ser.len(), 0);
}

#[test]
fn block_that_contradicts_its_counts_is_not_written() {
    for size in [0usize, 5, 7, 70000] {
        let login = VehicleLogin {
            at: Time { year: 1, month: 2, day: 3, hour: 4, minute: 5, second: 6 },
            sn: 7,
            iccid: Iccid::from("1".to_string()),
            subsys_num: 2,
            subsys_len: 3,
            subsys_sn: vec![0; size],
        };
        let mut ser = Serializer::new();
        assert_eq!(login.serialize(&mut ser), Err(vin::serde::Error::Unsupported));
        assert_eq!(ser.len(), 0);
        let packet = Packet::new(
            Response::Success,
            Vin::from("V".to_string()),
            Encrypt::Plain,
            Payload::VehicleLogin(login),
        );
        assert_eq!(packet, Err(Error::Serde(vin::serde::Error::Unsupported)));
    }
    // an identifier that cannot be written is reported before the block
    let login = VehicleLogin {
        at: Time { year: 1, month: 2, day: 3, hour: 4, minute: 5, second: 6 },
        sn: 7,
        iccid: Iccid::from("\u{1F600}".to_string()),
        subsys_num: 2,
        subsys_len: 3,
        subsys_sn: vec![],
    };
    let mut ser = Serializer::new();
    assert_eq!(login.serialize(&mut ser), Err(vin::serde::Error::GBK));
}

#[test]
fn longest_body_has_a_length_that_the_header_can_declare() {
    let login = VehicleLogin {
        at: Time { year: 1, month: 2, day: 3, hour: 4, minute: 5, second: 6 },
        sn: 7,
        iccid: Iccid::from("1".to_string()),
        subsys_num: 255,
        subsys_len: 255,
        subsys_sn: vec![9; 65025],
    };
    let packet = Packet::new(
        Response::Success,
        Vin::from("V".to_string()),
        Encrypt::Plain,
        Payload::VehicleLogin(login),
    )
    .unwrap();
    assert_eq!(packet.body_len, 65055);
    assert_eq!(vin::packet::body::BODY_MAX, 65055);
    let frame = packet.to_bytes().unwrap();
    assert_eq!(frame.len(), 24 + 65055 + 1);
    assert_eq!(&frame[22..24], &[0xfe, 0x1f]);
    assert_eq!(parse_bytes(&frame).unwrap(), packet);
}

#[test]
fn logout_body_is_eight_bytes() {
    let body = [18u8, 10, 30, 20, 35, 54, 0x01, 0x02, 0xff];
    let mut de = Deserializer::new(&body);
    let logout = VehicleLogout::deserialize(&mut de).unwrap();
    assert_eq!(
        logout,
        VehicleLogout {
            at: Time { year: 18, month: 10, day: 30, hour: 20, minute: 35, second: 54 },
            sn: 0x0102,
        }
    );
    assert_eq!(de.consumed(), 8);
    let mut ser = Serializer::new();
    logout.serialize(&mut ser).unwrap();
    assert_eq!(ser.into_bytes(), &body[..8]);
    let mut short = Deserializer::new(&body[..7]);
    assert_eq!(
        VehicleLogout::deserialize(&mut short),
        Err(Error::Serde(vin::serde::Error::UnexpectedEof))
    );
    assert_eq!(short.consumed(), 0);
}

#[test]
fn login_body_takes_count_times_length_bytes_of_codes() {
    let mut body = vec![18u8, 10, 30, 20, 35, 54, 0, 1];
    body.extend_from_slice(b"89860402101700179779");
    body.extend_from_slice(&[200, 200]);
    body.extend_from_slice(&vec![7u8; 40000]);
    let mut de = Deserializer::new(&body);
    let login = VehicleLogin::deserialize(&mut de).unwrap();
    assert_eq!(login.subsys_sn.len(), 40000);
    assert_eq!(de.consumed(), 40030);
    // one byte fewer than the two counts ask for
    let mut de = Deserializer::new(&body[..40029]);
    assert_eq!(
        VehicleLogin::deserialize(&mut de),
        Err(Error::Serde(vin::serde::Error::UnexpectedEof))
    );
    assert_eq!(de.consumed(), 0);
}

#[test]
fn time_is_kept_as_it_comes() {
    let bytes = [255u8, 13, 32, 25, 61, 99];
    let mut de = Deserializer::new(&bytes);
    let time = Time::deserialize(&mut de).unwrap();
    assert_eq!(
        time,
        Time { year: 255, month: 13, day: 32, hour: 25, minute: 61, second: 99 }
    );
    let mut ser = Serializer::new();
    time.serialize(&mut ser).unwrap();
    assert_eq!(ser.into_bytes(), bytes);
}

#[test]
fn header_is_written_in_24_bytes() {
    let header = Header {
        begin: 0x2323,
        command: MyCommand(0x04),
        response: Response::DupVin,
        vin: Vin::from("LZYTBGBW6J1014194".to_string()),
        encrypt: Encrypt::Rsa,
        body_len: 0x1234,
    };
    let mut ser = Serializer::new();
    header.serialize(&mut ser).unwrap();
    let bytes = ser.into_bytes();
    assert_eq!(bytes.len(), 24);
    assert_eq!(&bytes[..4], &[0x23, 0x23, 0x04, 0x02]);
    assert_eq!(&bytes[4..21], b"LZYTBGBW6J1014194");
    assert_eq!(&bytes[21..], &[0x02, 0x12, 0x34]);
    let mut de = Deserializer::new(&bytes);
    assert_eq!(Header::deserialize(&mut de).unwrap(), header);
}

#[test]
fn frame_is_read_in_three_steps() {
    let frame = login_frame();
    let mut de = Deserializer::new(&frame);
    let first = advance(Stage::AwaitHeader, &mut de);
    assert_eq!(de.consumed(), 24);
    let header_sum = vin::packet::bcc::checksum(&frame[2..24]);
    match &first {
        Stage::HaveHeader { header, sum } => {
            assert_eq!(header.body_len, 30);
            assert_eq!(header.command, MyCommand(1));
            assert_eq!(*sum, header_sum);
        }
        other => panic!("{:?}", other),
    }
    let second = advance(first, &mut de);
    assert_eq!(de.consumed(), 54);
    match &second {
        Stage::HaveBody { header, body, used, sum } => {
            assert_eq!(header.body_len, 30);
            assert!(matches!(body, Payload::VehicleLogin(_)));
            assert_eq!(*used, 30);
            assert_eq!(*sum, 0x5c);
        }
        other => panic!("{:?}", other),
    }
    let third = advance(second, &mut de);
    assert_eq!(de.consumed(), 55);
    let packet = parse_bytes(&frame).unwrap();
    assert_eq!(third, Stage::Verified(packet));
    // nothing follows the last stage
    let fourth = advance(third, &mut de);
    assert!(matches!(fourth, Stage::Verified(_)));
    assert_eq!(de.consumed(), 55);
}

#[test]
fn step_that_fails_consumes_nothing_and_stays_failed() {
    let frame = login_frame();
    let mut de = Deserializer::new(&frame[..20]);
    let first = advance(Stage::AwaitHeader, &mut de);
    assert_eq!(first, Stage::Failed(Error::Serde(vin::serde::Error::UnexpectedEof)));
    assert_eq!(de.consumed(), 0);
    let again = advance(first, &mut de);
    assert_eq!(again, Stage::Failed(Error::Serde(vin::serde::Error::UnexpectedEof)));
    // an unknown command fails the second step, after a header that was read
    let mut unknown = frame.clone();
    unknown[2] = 0x07;
    let mut de = Deserializer::new(&unknown);
    let first = advance(Stage::AwaitHeader, &mut de);
    assert!(matches!(first, Stage::HaveHeader { .. }));
    let second = advance(first, &mut de);
    assert_eq!(second, Stage::Failed(Error::UnknownCommand));
    assert_eq!(de.consumed(), 24);
    // a wrong checksum fails the third step
    let mut damaged = frame.clone();
    damaged[54] = 0x00;
    let mut de = Deserializer::new(&damaged);
    let first = advance(Stage::AwaitHeader, &mut de);
    let second = advance(first, &mut de);
    let third = advance(second, &mut de);
    assert_eq!(third, Stage::Failed(Error::ChecksumMismatch));
    assert_eq!(de.consumed(), 54);
    // and so does a length that the body did not take
    let mut de = Deserializer::new(&frame);
    let first = advance(Stage::AwaitHeader, &mut de);
    let second = match advance(first, &mut de) {
        Stage::HaveBody { header, body, used: _, sum } => Stage::HaveBody { header, body, used: 29, sum },
        other => other,
    };
    assert_eq!(advance(second, &mut de), Stage::Failed(Error::BodyLengthMismatch));
}
