use vin::serde::de::{SeqAccess, TagWidth};
use vin::serde::gbk::{decode_fixed, encode_fixed, position_of_nul, GBKString, Options, StringVisitor};
use vin::serde::value::{Shape, Value};
use vin::serde::{from_bytes, from_str, to_bytes, to_string, Deserializer, Error, Serializer};
use vin::serde::{String17, S3, S4, SString};

#[derive(Debug, PartialEq, Eq)]
struct Five {}

impl Options for Five {
    const LENGTH: usize = 5;
}

#[test]
fn test_ss() {
    let s3: S3;
    // let s3: S3 = SString { data: [0, 1, 2] };
    let s4: S4 = SString { data: [0, 1, 2, 3] };
    s3 = SString { data: [0, 1, 2] };
    assert_eq!(s3.data.len(), 3);
    assert_eq!(s4.data.len(), 4);
}

#[test]
fn test_length() {
    let s17: String17 = String17::new();
    println!("{}", s17.length())
}

#[test]
fn string_buffer_has_the_length_of_its_type() {
    let s17: String17 = String17::new();
    assert_eq!(s17.message, "");
    assert_eq!(s17.length(), 17);
}

#[test]
fn ab_in_a_field_of_five() {
    assert_eq!(encode_fixed("AB", 5), Ok(vec![0x41, 0x42, 0, 0, 0]));
    assert_eq!(decode_fixed(&[0x41, 0x42, 0, 0, 0]), Ok("AB".to_string()));
    assert_eq!(decode_fixed(&[0x41, 0x42, 0, 0x43, 0]), Ok("AB".to_string()));
}

#[test]
fn field_is_as_wide_as_asked_or_nothing() {
    for width in 0..40usize {
        for text in ["", "A", "LZYTBGBW6J1014194", "京A12345", "中文中文中文中文中文"] {
            match encode_fixed(text, width) {
                Ok(field) => assert_eq!(field.len(), width),
                Err(e) => assert_eq!(e, Error::GbkTooLarge),
            }
        }
    }
    assert_eq!(encode_fixed("", 0), Ok(vec![]));
    assert_eq!(encode_fixed("", 3), Ok(vec![0, 0, 0]));
    assert_eq!(encode_fixed("ABC", 3), Ok(vec![0x41, 0x42, 0x43]));
    assert_eq!(encode_fixed("ABCD", 3), Err(Error::GbkTooLarge));
    // a character of two bytes does not fit a field of one
    assert_eq!(encode_fixed("中", 1), Err(Error::GbkTooLarge));
    assert_eq!(encode_fixed("中", 2), Ok(vec![0xd6, 0xd0]));
}

#[test]
fn text_without_a_gbk_form_is_refused() {
    assert_eq!(encode_fixed("\u{1F600}", 17), Err(Error::GBK));
    let mut ser = Serializer::new();
    assert_eq!(ser.serialize_str("a\u{1F600}"), Err(Error::GBK));
    assert_eq!(ser.len(), 0);
}

#[test]
fn bytes_that_are_not_gbk_are_refused() {
    assert_eq!(decode_fixed(&[0xff, 0x41, 0]), Err(Error::GBK));
    // the first byte of a character of two, and nothing after it
    assert_eq!(decode_fixed(&[0xd6, 0, 0]), Err(Error::GBK));
    // bytes after the first zero byte are not looked at
    assert_eq!(decode_fixed(&[0x41, 0, 0xff, 0xff]), Ok("A".to_string()));
}

#[test]
fn field_without_a_zero_byte_is_read_whole() {
    assert_eq!(decode_fixed(b"LZYTBGBW6J1014194"), Ok("LZYTBGBW6J1014194".to_string()));
    assert_eq!(decode_fixed(&[]), Ok(String::new()));
    assert_eq!(decode_fixed(&[0, 0x41]), Ok(String::new()));
    assert_eq!(position_of_nul(&[1, 2, 0, 4, 0]), 2);
    assert_eq!(position_of_nul(&[1, 2, 3]), 3);
    assert_eq!(position_of_nul(&[]), 0);
    assert_eq!(position_of_nul(&[0]), 0);
}

#[test]
fn text_with_a_zero_character_is_cut_when_read() {
    let field = encode_fixed("A\u{0}B", 5).unwrap();
    assert_eq!(field, vec![0x41, 0, 0x42, 0, 0]);
    assert_eq!(decode_fixed(&field), Ok("A".to_string()));
}

#[test]
fn typed_text_is_written_in_the_width_of_its_type() {
    let text: GBKString<Five> = GBKString::from("AB".to_string());
    let mut ser = Serializer::new();
    text.serialize(&mut ser).unwrap();
    ser.serialize_gbk_string(&text).unwrap();
    assert_eq!(ser.into_bytes(), vec![0x41, 0x42, 0, 0, 0, 0x41, 0x42, 0, 0, 0]);
    let empty: GBKString<Five> = GBKString::new();
    assert_eq!(empty.message, "");
    let mut ser = Serializer::new();
    empty.serialize(&mut ser).unwrap();
    assert_eq!(ser.into_bytes(), vec![0; 5]);
    let long: GBKString<Five> = GBKString::from("ABCDEF".to_string());
    let mut ser = Serializer::new();
    ser.serialize_u8(9).unwrap();
    assert_eq!(long.serialize(&mut ser), Err(Error::GbkTooLarge));
    assert_eq!(ser.into_bytes(), vec![9]);
}

#[test]
fn typed_text_is_read_from_the_width_of_its_type_and_no_more() {
    let input = [0x41u8, 0x42, 0, 0x43, 0, 0x44, 0x45];
    let mut de = Deserializer::new(&input);
    let text: GBKString<Five> = GBKString::deserialize(&mut de).unwrap();
    assert_eq!(text.message, "AB");
    assert_eq!(de.consumed(), 5);
    assert_eq!(de.deserialize_u8(), Ok(0x44));
    let mut de = Deserializer::new(&input);
    let text: GBKString<Five> = StringVisitor::new().visit_seq(&mut de).unwrap();
    assert_eq!(text, GBKString::from("AB".to_string()));
    assert_eq!(de.consumed(), 5);
    let mut de = Deserializer::new(&input);
    assert_eq!(de.deserialize_gbk_string(5), Ok("AB".to_string()));
    assert_eq!(de.consumed(), 5);
    assert_eq!(de.deserialize_gbk_string(3), Err(Error::UnexpectedEof));
    assert_eq!(de.consumed(), 5);
    // four bytes are not a field of five
    let mut de = Deserializer::new(&input[..4]);
    let r: Result<GBKString<Five>, Error> = GBKString::deserialize(&mut de);
    assert_eq!(r, Err(Error::UnexpectedEof));
    assert_eq!(de.consumed(), 0);
    let bad = [0xffu8, 0x41, 0x42, 0x43, 0x44];
    let mut de = Deserializer::new(&bad);
    let r: Result<GBKString<Five>, Error> = GBKString::deserialize(&mut de);
    assert_eq!(r, Err(Error::GBK));
    assert_eq!(de.consumed(), 0);
}

#[test]
fn text_of_seventeen_bytes() {
    let text = vin::serde::GBKString::with("LZYTBGBW6J1014194".to_string());
    assert_eq!(text.string(), "LZYTBGBW6J1014194");
    assert_eq!(vin::serde::GBKString::LENGTH, 17);
    let mut ser = Serializer::new();
    text.serialize(&mut ser).unwrap();
    let bytes = ser.into_bytes();
    assert_eq!(bytes, b"LZYTBGBW6J1014194");
    let mut de = Deserializer::new(&bytes);
    assert_eq!(vin::serde::GBKString::deserialize(&mut de), Ok(text));
    let mut short = vin::serde::GBKString::with(String::new());
    short.mut_string().push_str("AB");
    assert_eq!(short.string(), "AB");
    let mut ser = Serializer::new();
    short.serialize(&mut ser).unwrap();
    let bytes = ser.into_bytes();
    assert_eq!(bytes.len(), 17);
    assert_eq!(&bytes[..3], &[0x41, 0x42, 0]);
    let long = vin::serde::GBKString::with("123456789012345678".to_string());
    let mut ser = Serializer::new();
    assert_eq!(long.serialize(&mut ser), Err(Error::GbkTooLarge));
}

#[test]
fn integers_are_big_endian() {
    let input = [0x01u8, 0x02, 0x03, 0x04, 0x05, 0x06, 0x07];
    let mut de = Deserializer::new(&input);
    assert_eq!(de.deserialize_u8(), Ok(0x01));
    assert_eq!(de.deserialize_u16(), Ok(0x0203));
    assert_eq!(de.deserialize_u32(), Ok(0x04050607));
    assert_eq!(de.consumed(), 7);
    assert_eq!(de.deserialize_u8(), Err(Error::UnexpectedEof));
    let mut ser = Serializer::new();
    ser.serialize_u8(0x01).unwrap();
    ser.serialize_u16(0x0203).unwrap();
    ser.serialize_u32(0x04050607).unwrap();
    assert_eq!(ser.len(), 7);
    assert_eq!(ser.into_bytes(), input);
    let mut de = Deserializer::new(&[0xffu8, 0xfe, 0xfd, 0xfc]);
    assert_eq!(de.fork().deserialize_u16(), Ok(65534));
    assert_eq!(de.deserialize_u32(), Ok(4294901244));
}

#[test]
fn short_input_is_end_of_input_and_nothing_is_consumed() {
    let input = [0x01u8, 0x02, 0x03];
    let mut de = Deserializer::new(&input);
    assert_eq!(de.deserialize_u32(), Err(Error::UnexpectedEof));
    assert_eq!(de.consumed(), 0);
    assert_eq!(de.read_bytes(4), Err(Error::UnexpectedEof));
    assert_eq!(de.consumed(), 0);
    assert_eq!(de.read_bytes(usize::MAX), Err(Error::UnexpectedEof));
    assert_eq!(de.deserialize_u16(), Ok(0x0102));
    assert_eq!(de.deserialize_u16(), Err(Error::UnexpectedEof));
    assert_eq!(de.consumed(), 2);
    assert_eq!(de.read_bytes(0), Ok(vec![]));
    assert_eq!(de.read_bytes(1), Ok(vec![3]));
    assert_eq!(de.remaining_len(), 0);
}

#[test]
fn discriminant_of_one_or_two_bytes() {
    let input = [0xfeu8, 0x01, 0x02];
    let mut de = Deserializer::new(&input);
    assert_eq!(de.deserialize_tag(TagWidth::One), Ok(0xfe));
    assert_eq!(de.deserialize_tag(TagWidth::Two), Ok(0x0102));
    assert_eq!(de.deserialize_tag(TagWidth::One), Err(Error::UnexpectedEof));
    let mut de = Deserializer::new(&input[..1]);
    assert_eq!(de.deserialize_tag(TagWidth::Two), Err(Error::UnexpectedEof));
    assert_eq!(de.consumed(), 0);
}

#[test]
fn text_closed_by_a_zero_byte() {
    let mut ser = Serializer::new();
    ser.serialize_str("中A").unwrap();
    ser.serialize_str("").unwrap();
    let bytes = ser.into_bytes();
    assert_eq!(bytes, vec![0xd6, 0xd0, 0x41, 0, 0]);
    let mut de = Deserializer::new(&bytes);
    assert_eq!(de.deserialize_string(), Ok("中A".to_string()));
    assert_eq!(de.consumed(), 4);
    assert_eq!(de.deserialize_str(), Ok(String::new()));
    assert_eq!(de.consumed(), 5);
    assert_eq!(de.deserialize_string(), Err(Error::UnexpectedEof));
    // no zero byte at all
    let mut de = Deserializer::new(&[0x41u8, 0x42]);
    assert_eq!(de.read_until_string_end(), Err(Error::UnexpectedEof));
    assert_eq!(de.deserialize_string(), Err(Error::UnexpectedEof));
    assert_eq!(de.consumed(), 0);
    // bytes that are not GBK
    let mut de = Deserializer::new(&[0xffu8, 0, 0x41]);
    assert_eq!(de.deserialize_string(), Err(Error::GBK));
    assert_eq!(de.consumed(), 0);
    assert_eq!(de.read_until_string_end(), Ok(vec![0xff]));
    assert_eq!(de.consumed(), 2);
}

#[test]
fn presence_byte_is_zero_or_one() {
    let mut de = Deserializer::new(&[0u8, 1, 7, 2, 9]);
    assert_eq!(de.deserialize_option(&Shape::U8), Ok(None));
    assert_eq!(de.consumed(), 1);
    assert_eq!(de.deserialize_option(&Shape::U8), Ok(Some(Value::U8(7))));
    assert_eq!(de.consumed(), 3);
    assert_eq!(de.deserialize_option(&Shape::U8), Err(Error::InvalidOptionTag));
    assert_eq!(de.deserialize_presence(), Err(Error::InvalidOptionTag));
    assert_eq!(de.consumed(), 3);
    // present, and the value cut short: nothing is consumed
    let mut de = Deserializer::new(&[1u8, 7]);
    assert_eq!(de.deserialize_option(&Shape::U16), Err(Error::UnexpectedEof));
    assert_eq!(de.consumed(), 0);
    assert_eq!(de.deserialize_presence(), Ok(true));
    let mut de = Deserializer::new(&[]);
    assert_eq!(de.deserialize_presence(), Err(Error::UnexpectedEof));
    let mut ser = Serializer::new();
    ser.serialize_none().unwrap();
    ser.serialize_some(&Value::U16(0x0102)).unwrap();
    assert_eq!(ser.serialize_some(&Value::Bool(true)), Err(Error::Unsupported));
    assert_eq!(ser.into_bytes(), vec![0, 1, 1, 2]);
}

#[test]
fn floating_point_is_unsupported() {
    let input = [0x3fu8, 0x80, 0, 0, 0, 0, 0, 0];
    assert_eq!(from_bytes(&Shape::Float, &input), Err(Error::Unsupported));
    assert_eq!(from_bytes(&Shape::Double, &input), Err(Error::Unsupported));
    let record = Shape::Struct(vec![Shape::U8, Shape::Float]);
    let mut de = Deserializer::new(&input);
    assert_eq!(de.deserialize_value(&record), Err(Error::Unsupported));
    assert_eq!(de.consumed(), 0);
    assert_eq!(to_bytes(&Value::Float(0x3f800000)), Err(Error::Unsupported));
    assert_eq!(to_bytes(&Value::Double(0x3ff0000000000000)), Err(Error::Unsupported));
}

#[test]
fn shapes_outside_the_format_are_unsupported() {
    let input = [1u8; 16];
    for shape in [
        Shape::Bool,
        Shape::I8,
        Shape::I16,
        Shape::I32,
        Shape::I64,
        Shape::U64,
        Shape::Char,
        Shape::Unit,
        Shape::OpenSeq,
        Shape::Dict,
        Shape::Union,
    ] {
        assert_eq!(from_bytes(&shape, &input), Err(Error::Unsupported));
    }
    let mut de = Deserializer::new(&input);
    assert_eq!(de.deserialize_enum(), Err(Error::Unsupported));
    for value in [
        Value::Bool(true),
        Value::I8(-1),
        Value::I16(-1),
        Value::I32(-1),
        Value::I64(-1),
        Value::U64(1),
        Value::Char('a'),
        Value::Unit,
        Value::Union(0, Box::new(Value::U8(1))),
    ] {
        assert_eq!(to_bytes(&value), Err(Error::Unsupported));
    }
}

#[test]
fn record_is_read_field_after_field() {
    let shape = Shape::Struct(vec![
        Shape::U16,
        Shape::Gbk(4),
        Shape::Optional(Box::new(Shape::U8)),
        Shape::Array(Box::new(Shape::U16), 2),
        Shape::Tuple(vec![Shape::U8, Shape::Newtype(Box::new(Shape::U32))]),
        Shape::Str,
        Shape::Bytes(2),
    ]);
    let input = [
        0x23u8, 0x23, 0x41, 0x42, 0, 0, 1, 9, 0, 1, 0, 2, 5, 0, 0, 1, 0, 0x43, 0, 0xaa, 0xbb, 0xcc,
    ];
    let value = Value::Struct(vec![
        Value::U16(0x2323),
        Value::Gbk("AB".to_string(), 4),
        Value::Optional(Some(Box::new(Value::U8(9)))),
        Value::Array(vec![Value::U16(1), Value::U16(2)]),
        Value::Tuple(vec![Value::U8(5), Value::Newtype(Box::new(Value::U32(256)))]),
        Value::Str("C".to_string()),
        Value::Bytes(vec![0xaa, 0xbb]),
    ]);
    let mut de = Deserializer::new(&input);
    assert_eq!(de.deserialize_value(&shape), Ok(value));
    assert_eq!(de.consumed(), 21);
    let value = from_bytes(&shape, &input).unwrap();
    assert_eq!(to_bytes(&value).unwrap(), &input[..21]);
}

#[test]
fn failure_at_a_field_fails_the_record_and_consumes_nothing() {
    let shapes = vec![Shape::U8, Shape::U16, Shape::Optional(Box::new(Shape::U8)), Shape::U8];
    let mut de = Deserializer::new(&[1u8, 0, 2, 7, 9]);
    assert_eq!(de.deserialize_tuple(&shapes), Err(Error::InvalidOptionTag));
    assert_eq!(de.consumed(), 0);
    assert_eq!(de.deserialize_struct(&shapes), Err(Error::InvalidOptionTag));
    let mut de = Deserializer::new(&[1u8, 0, 2, 0]);
    assert_eq!(de.deserialize_tuple(&shapes), Err(Error::UnexpectedEof));
    assert_eq!(de.consumed(), 0);
    let mut de = Deserializer::new(&[1u8, 0, 2, 0, 9, 8]);
    assert_eq!(
        de.deserialize_tuple(&shapes),
        Ok(vec![Value::U8(1), Value::U16(2), Value::Optional(None), Value::U8(9)])
    );
    assert_eq!(de.consumed(), 5);
    assert_eq!(de.deserialize_tuple(&vec![]), Ok(vec![]));
    assert_eq!(de.consumed(), 5);
}

#[test]
fn sequence_has_the_count_that_the_caller_gives() {
    let mut de = Deserializer::new(&[0u8, 1, 0, 2, 0, 3, 0xff]);
    assert_eq!(
        de.deserialize_seq(&Shape::U16, 3),
        Ok(vec![Value::U16(1), Value::U16(2), Value::U16(3)])
    );
    assert_eq!(de.consumed(), 6);
    assert_eq!(de.deserialize_seq(&Shape::U16, 0), Ok(vec![]));
    assert_eq!(de.deserialize_seq(&Shape::U16, 1), Err(Error::UnexpectedEof));
    assert_eq!(de.consumed(), 6);
    assert_eq!(de.deserialize_newtype_struct(&Shape::U8), Ok(Value::U8(0xff)));
    let mut de = Deserializer::new(&[0u8, 1, 0, 2, 0]);
    assert_eq!(de.deserialize_seq(&Shape::U16, 3), Err(Error::UnexpectedEof));
    assert_eq!(de.consumed(), 0);
}

#[test]
fn failure_at_an_item_leaves_nothing_written() {
    let items = vec![Value::U8(1), Value::Str("x".to_string()), Value::Unit, Value::U8(2)];
    let mut ser = Serializer::new();
    ser.serialize_u8(0xee).unwrap();
    assert_eq!(ser.serialize_tuple(&items), Err(Error::Unsupported));
    assert_eq!(ser.len(), 1);
    assert_eq!(ser.serialize_struct(&items), Err(Error::Unsupported));
    assert_eq!(ser.serialize_seq(&items), Err(Error::Unsupported));
    assert_eq!(ser.serialize_value(&Value::Tuple(items)), Err(Error::Unsupported));
    ser.serialize_seq(&vec![Value::U8(1), Value::U8(2)]).unwrap();
    ser.serialize_newtype_struct(&Value::U8(3)).unwrap();
    ser.serialize_bytes(&[4, 5]).unwrap();
    assert_eq!(ser.into_bytes(), vec![0xee, 1, 2, 3, 4, 5]);
    let wide = Value::Struct(vec![Value::U8(1), Value::Gbk("ABC".to_string(), 2)]);
    assert_eq!(to_bytes(&wide), Err(Error::GbkTooLarge));
}

#[test]
fn value_in_hexadecimal_text() {
    let value = Value::Tuple(vec![Value::U16(0xabcd), Value::U8(0x0f), Value::Str("A".to_string())]);
    assert_eq!(to_string(&value), Ok("ABCD0F4100".to_string()));
    assert_eq!(to_string(&Value::Tuple(vec![])), Ok(String::new()));
    assert_eq!(to_string(&Value::Unit), Err(Error::Unsupported));
    let shape = Shape::Tuple(vec![Shape::U16, Shape::U8, Shape::Str]);
    assert_eq!(from_str(&shape, "ABCD0F4100"), Ok(Value::Tuple(vec![
        Value::U16(0xabcd),
        Value::U8(0x0f),
        Value::Str("A".to_string()),
    ])));
    assert_eq!(from_str(&shape, "abcd0f4100ff").unwrap(), value);
    assert_eq!(from_str(&shape, "abcd0f41"), Err(Error::UnexpectedEof));
    assert_eq!(from_str(&shape, "abc"), Err(Error::HexString(hex::FromHexError::OddLength)));
    assert_eq!(
        from_str(&shape, "abcg"),
        Err(Error::HexString(hex::FromHexError::InvalidHexCharacter { c: 'g', index: 3 }))
    );
}

#[test]
fn custom_failure_carries_its_reason() {
    let e = Error::Custom("subsystem code".to_string());
    assert_eq!(e, Error::Custom("subsystem code".to_string()));
    assert_ne!(e, Error::Custom("other".to_string()));
    assert_ne!(e, Error::Unsupported);
}

#[test]
fn elements_are_handed_out_one_at_a_time() {
    let input = [0u8, 1, 7, 0x41, 0];
    let mut de = Deserializer::new(&input);
    {
        let mut access = SeqAccess::new(&mut de);
        assert_eq!(access.next_element(&Shape::U16), Ok(Some(Value::U16(1))));
        assert_eq!(access.next_element(&Shape::U8), Ok(Some(Value::U8(7))));
        assert_eq!(access.next_element(&Shape::U32), Err(Error::UnexpectedEof));
        assert_eq!(access.next_element(&Shape::Bool), Err(Error::Unsupported));
        assert_eq!(access.next_element(&Shape::Str), Ok(Some(Value::Str("A".to_string()))));
        assert_eq!(access.next_element(&Shape::U8), Err(Error::UnexpectedEof));
    }
    assert_eq!(de.consumed(), 5);
}

#[test]
fn discriminant_is_written_in_one_or_two_bytes() {
    let mut ser = Serializer::new();
    ser.serialize_tag(TagWidth::One, 0xfe).unwrap();
    ser.serialize_tag(TagWidth::Two, 0xfe).unwrap();
    ser.serialize_tag(TagWidth::Two, 0x1234).unwrap();
    assert_eq!(ser.serialize_tag(TagWidth::One, 0x100), Err(Error::UnknownDiscriminant));
    ser.serialize_tag(TagWidth::One, 0xff).unwrap();
    assert_eq!(ser.into_bytes(), vec![0xfe, 0x00, 0xfe, 0x12, 0x34, 0xff]);
}

#[test]
fn raw_blocks_are_read_as_they_are() {
    let input = [0u8, 0xff, 0, 1, 2];
    let mut de = Deserializer::new(&input);
    assert_eq!(de.deserialize_bytes(3), Ok(vec![0, 0xff, 0]));
    assert_eq!(de.deserialize_byte_buf(3), Err(Error::UnexpectedEof));
    assert_eq!(de.deserialize_byte_buf(2), Ok(vec![1, 2]));
    assert_eq!(Error::custom("reason".to_string()), Error::Custom("reason".to_string()));
}

#[test]
fn two_spellings_of_one_character_are_written_as_one() {
    // the euro sign is read from one byte or from two, and written in one
    assert_eq!(decode_fixed(&[0x80, 0, 0]), Ok("\u{20ac}".to_string()));
    assert_eq!(decode_fixed(&[0xa2, 0xe3, 0]), Ok("\u{20ac}".to_string()));
    assert_eq!(encode_fixed("\u{20ac}", 3), Ok(vec![0x80, 0, 0]));
}
