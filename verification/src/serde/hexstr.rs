//! Frames written out as text: two hexadecimal digits for each byte.

use vstd::prelude::*;

verus! {

/// `hex::FromHexError`: why a text is not the hexadecimal form of any
/// bytes. Nothing is known of a value of it.
#[verifier::external_type_specification]
#[verifier::external_body]
pub struct ExFromHexError(hex::FromHexError);

/// The value of a hexadecimal digit, in either case.
pub open spec fn hex_value(c: char) -> Option<int> {
    let n = c as u32 as int;
    if 48 <= n <= 57 {
        Some(n - 48)
    } else if 65 <= n <= 70 {
        Some(n - 55)
    } else if 97 <= n <= 102 {
        Some(n - 87)
    } else {
        None
    }
}

/// The bytes that a text spells, two digits to a byte, or `None` where the
/// text has an odd number of characters or one that is no digit.
pub open spec fn hex_decoding(text: Seq<char>) -> Option<Seq<u8>> {
    if text.len() % 2 == 0 && forall|i: int| 0 <= i < text.len() ==> hex_value(text[i]) is Some {
        Some(
            Seq::new(
                text.len() / 2,
                |i: int|
                    (16 * hex_value(text[2 * i])->Some_0 + hex_value(text[2 * i + 1])->Some_0) as u8,
            ),
        )
    } else {
        None
    }
}

/// The upper-case digit of a value below 16.
pub open spec fn upper_digit(n: int) -> char {
    if n < 10 {
        ((48 + n) as u8) as char
    } else {
        ((55 + n) as u8) as char
    }
}

/// Two upper-case digits for each byte, the high one first.
pub open spec fn hex_encoding_upper(bytes: Seq<u8>) -> Seq<char> {
    Seq::new(
        2 * bytes.len(),
        |i: int|
            upper_digit(
                if i % 2 == 0 {
                    bytes[i / 2] as int / 16
                } else {
                    bytes[i / 2] as int % 16
                },
            ),
    )
}

/// Calls `hex::decode` on a string. Trusted: it succeeds exactly on an even
/// number of characters that are all hexadecimal digits, and then each byte
/// is sixteen times its first digit plus its second. (The outside function
/// counts bytes, not characters; a character outside ASCII makes it fail on
/// either count.) Which failure it reports is not stated.
#[verifier::external_body]
pub(crate) fn hex_decode(text: &str) -> (r: Result<Vec<u8>, hex::FromHexError>)
    ensures
        match r {
            Ok(bytes) => hex_decoding(text@) == Some(bytes@),
            Err(_) => hex_decoding(text@) is None,
        },
{
    hex::decode(text)
}

/// Calls `hex::encode_upper`. Trusted: it gives two digits from
/// `0123456789ABCDEF` for each byte, the high four bits first.
#[verifier::external_body]
pub(crate) fn hex_encode_upper(bytes: &[u8]) -> (text: String)
    ensures
        text@ == hex_encoding_upper(bytes@),
{
    hex::encode_upper(bytes)
}

/// The text of some bytes spells those bytes.
pub proof fn lemma_hex_round_trip(bytes: Seq<u8>)
    ensures
        hex_decoding(hex_encoding_upper(bytes)) == Some(bytes),
{
    let text = hex_encoding_upper(bytes);
    assert forall|i: int| 0 <= i < text.len() implies hex_value(text[i]) is Some by {
        let b = bytes[i / 2] as int;
        assert(0 <= b / 16 < 16 && 0 <= b % 16 < 16);
    }
    let back = hex_decoding(text)->Some_0;
    assert forall|i: int| 0 <= i < bytes.len() implies back[i] == bytes[i] by {
        let b = bytes[i] as int;
        assert((2 * i) / 2 == i && (2 * i + 1) / 2 == i);
        assert((2 * i) % 2 == 0 && (2 * i + 1) % 2 == 1);
        assert(0 <= b / 16 < 16 && 0 <= b % 16 < 16);
        assert(hex_value(text[2 * i]) == Some(b / 16));
        assert(hex_value(text[2 * i + 1]) == Some(b % 16));
    }
    assert(back =~= bytes);
}

} // verus!
