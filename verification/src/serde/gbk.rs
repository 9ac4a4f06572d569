//! Text fields: GBK text in a field of fixed width, padded with zero bytes.

use std::marker::PhantomData;
use vstd::prelude::*;

use encoding::all::GBK;
use encoding::{DecoderTrap, EncoderTrap, Encoding};

use crate::serde::de::{field_decoding, Deserializer};
use crate::serde::error::Error;
use crate::serde::ser::Serializer;

verus! {

/// The GBK form of a text, or `None` where a character has none.
pub uninterp spec fn gbk_encoding(text: Seq<char>) -> Option<Seq<u8>>;

/// The text that a run of bytes stands for in GBK, or `None` where the
/// bytes are not GBK text.
pub uninterp spec fn gbk_decoding(bytes: Seq<u8>) -> Option<Seq<char>>;

/// Calls `encoding::Encoding::encode` on `encoding::all::GBK` with
/// `EncoderTrap::Strict`. Trusted: the outcome is a function of the text
/// alone, and nothing more. (The encoder is made anew for each call, and
/// under the strict trap it fails at the first character it cannot map.)
#[verifier::external_body]
pub(crate) fn gbk_encode(text: &str) -> (r: Option<Vec<u8>>)
    ensures
        match r {
            Some(bytes) => gbk_encoding(text@) == Some(bytes@),
            None => gbk_encoding(text@) is None,
        },
{
    GBK.encode(text, EncoderTrap::Strict).ok()
}

/// Calls `encoding::Encoding::decode` on `encoding::all::GBK` with
/// `DecoderTrap::Strict`. Trusted: the outcome is a function of the bytes
/// alone, and nothing more. (The decoder is made anew for each call, and
/// under the strict trap an invalid or unfinished sequence is a failure.)
#[verifier::external_body]
pub(crate) fn gbk_decode(bytes: &[u8]) -> (r: Option<String>)
    ensures
        match r {
            Some(text) => gbk_decoding(bytes@) == Some(text@),
            None => gbk_decoding(bytes@) is None,
        },
{
    GBK.decode(bytes, DecoderTrap::Strict).ok()
}

/// `n` zero bytes.
pub open spec fn zeros(n: nat) -> Seq<u8> {
    Seq::new(n, |i: int| 0u8)
}

/// The index of the first zero byte of `s`, or its length where it has none.
pub open spec fn first_nul(s: Seq<u8>) -> nat
    decreases s.len(),
{
    if s.len() == 0 || s[0] == 0 {
        0
    } else {
        1 + first_nul(s.skip(1))
    }
}

/// The bytes of `s` before its first zero byte.
pub open spec fn until_nul(s: Seq<u8>) -> Seq<u8> {
    s.take(first_nul(s) as int)
}

/// The field of `width` bytes that holds `text`: its GBK form, then zero
/// bytes up to the width.
pub open spec fn fixed_encoding(text: Seq<char>, width: nat) -> Result<Seq<u8>, Error> {
    match gbk_encoding(text) {
        None => Err(Error::GBK),
        Some(bytes) => if bytes.len() > width {
            Err(Error::GbkTooLarge)
        } else {
            Ok(bytes + zeros((width - bytes.len()) as nat))
        },
    }
}

/// The text held in a field: what stands before the first zero byte, read
/// as GBK. Bytes after that zero byte play no part.
pub open spec fn fixed_decoding(field: Seq<u8>) -> Result<Seq<char>, Error> {
    match gbk_decoding(until_nul(field)) {
        None => Err(Error::GBK),
        Some(text) => Ok(text),
    }
}

/// `first_nul` is the least index that holds a zero byte.
pub proof fn lemma_first_nul(s: Seq<u8>, i: int)
    requires
        0 <= i <= s.len(),
        forall|j: int| 0 <= j < i ==> s[j] != 0,
        i < s.len() ==> s[i] == 0,
    ensures
        first_nul(s) == i,
    decreases i,
{
    if i > 0 {
        let t = s.skip(1);
        assert forall|j: int| 0 <= j < i - 1 implies t[j] != 0 by {
            assert(t[j] == s[j + 1]);
        }
        lemma_first_nul(t, i - 1);
    }
}

/// `first_nul` stays inside the sequence, and nothing before it is zero.
pub proof fn lemma_first_nul_bounds(s: Seq<u8>)
    ensures
        first_nul(s) <= s.len(),
        forall|j: int| 0 <= j < first_nul(s) ==> s[j] != 0,
        first_nul(s) < s.len() ==> s[first_nul(s) as int] == 0,
    decreases s.len(),
{
    if s.len() == 0 || s[0] == 0 {
    } else {
        let t = s.skip(1);
        lemma_first_nul_bounds(t);
        assert forall|j: int| 0 <= j < first_nul(s) implies s[j] != 0 by {
            if j > 0 {
                assert(t[j - 1] == s[j]);
            }
        }
        if first_nul(s) < s.len() {
            assert(t[first_nul(t) as int] == s[first_nul(t) as int + 1]);
        }
    }
}

/// A field is as wide as asked, whatever the text.
pub proof fn lemma_fixed_width(text: Seq<char>, width: nat)
    ensures
        fixed_encoding(text, width) matches Ok(field) ==> field.len() == width,
{
}

/// Bytes that hold no zero byte, padded with zero bytes, are found again
/// before the first zero byte.
pub proof fn lemma_until_nul_of_padded(bytes: Seq<u8>, padding: nat)
    requires
        forall|i: int| 0 <= i < bytes.len() ==> bytes[i] != 0,
    ensures
        until_nul(bytes + zeros(padding)) == bytes,
{
    let field = bytes + zeros(padding);
    lemma_first_nul(field, bytes.len() as int);
    assert(field.take(bytes.len() as int) =~= bytes);
}

/// GBK gives the text back from its bytes, and none of the bytes is zero.
pub open spec fn gbk_faithful(text: Seq<char>) -> bool {
    &&& gbk_encoding(text) matches Some(bytes)
    &&& gbk_decoding(bytes) == Some(text)
    &&& forall|i: int| 0 <= i < bytes.len() ==> bytes[i] != 0
}

/// The text is read back from a field of `width` bytes as it was written
/// there.
///
/// This is not so for every text: a text that holds the character U+0000
/// is written with a zero byte, at which a reader of the field stops.
pub open spec fn text_survives(text: Seq<char>, width: nat) -> bool {
    fixed_encoding(text, width) matches Ok(field) ==> fixed_decoding(field) == Ok::<
        Seq<char>,
        Error,
    >(text)
}

/// A field holds nothing but its text: written again, the text that is
/// read from it gives the same bytes.
///
/// This is not so for every field: bytes after the first zero byte are not
/// read, so a field that holds anything but zero bytes there is not found
/// again.
pub open spec fn field_canonical(field: Seq<u8>) -> bool {
    fixed_decoding(field) matches Ok(text) && fixed_encoding(text, field.len())
        == Ok::<Seq<u8>, Error>(field)
}

/// A text that GBK is faithful to is read back from a field as it was
/// written there, whatever the width, and the field holds nothing but the
/// text.
pub proof fn lemma_fixed_round_trip(text: Seq<char>, width: nat)
    requires
        gbk_faithful(text),
    ensures
        text_survives(text, width),
        fixed_encoding(text, width) matches Ok(field) ==> field_canonical(field),
{
    let bytes = gbk_encoding(text)->Some_0;
    if bytes.len() <= width {
        lemma_until_nul_of_padded(bytes, (width - bytes.len()) as nat);
    }
}

/// Writes `text` into a field of `width` bytes.
pub fn encode_fixed(text: &str, width: usize) -> (r: Result<Vec<u8>, Error>)
    ensures
        match r {
            Ok(field) => fixed_encoding(text@, width as nat) == Ok::<Seq<u8>, Error>(field@)
                && field@.len() == width,
            Err(e) => fixed_encoding(text@, width as nat) == Err::<Seq<u8>, Error>(e),
        },
{
    let mut buff: Vec<u8> = match gbk_encode(text) {
        Some(bytes) => bytes,
        None => { return Err(Error::GBK); },
    };
    if buff.len() > width {
        return Err(Error::GbkTooLarge);
    }
    let ghost bytes = buff@;
    buff.resize(width, 0u8);
    assert(buff@ =~= bytes + zeros((width - bytes.len()) as nat));
    Ok(buff)
}

/// The index of the first zero byte of `field`, or its length.
pub fn position_of_nul(field: &[u8]) -> (p: usize)
    ensures
        p == first_nul(field@),
        p <= field@.len(),
{
    let mut p: usize = 0;
    while p < field.len() && field[p] != 0
        invariant
            p <= field@.len(),
            forall|j: int| 0 <= j < p ==> field@[j] != 0,
        decreases field@.len() - p,
    {
        p = p + 1;
    }
    proof {
        lemma_first_nul(field@, p as int);
    }
    p
}

/// Reads the text held in a field.
pub fn decode_fixed(field: &[u8]) -> (r: Result<String, Error>)
    ensures
        match r {
            Ok(text) => fixed_decoding(field@) == Ok::<Seq<char>, Error>(text@),
            Err(e) => fixed_decoding(field@) == Err::<Seq<char>, Error>(e),
        },
{
    let p: usize = position_of_nul(field);
    let head = vstd::slice::slice_subrange(field, 0, p);
    match gbk_decode(head) {
        Some(text) => Ok(text),
        None => Err(Error::GBK),
    }
}

/// The width of a text field, bound to a type.
pub trait Options {
    const LENGTH: usize;
}

/// A text bound to the width of the field that carries it.
#[derive(Debug, PartialEq, Eq)]
pub struct GBKString<O> {
    pub message: String,
    pub _marker: PhantomData<O>,
}

impl<O> View for GBKString<O> {
    type V = Seq<char>;

    open spec fn view(&self) -> Seq<char> {
        self.message@
    }
}

impl<O: Options> GBKString<O> {
    /// The empty text.
    pub fn new() -> (s: Self)
        ensures
            s@ == Seq::<char>::empty(),
    {
        Self { message: String::new(), _marker: PhantomData }
    }

    /// The text `src`.
    pub fn from(src: String) -> (s: Self)
        ensures
            s@ == src@,
            s.message == src,
    {
        Self { message: src, _marker: PhantomData }
    }

    /// The field of `O::LENGTH` bytes that holds this text.
    pub open spec fn wire(&self) -> Result<Seq<u8>, Error> {
        fixed_encoding(self@, O::LENGTH as nat)
    }

    /// Writes the text into its field: `O::LENGTH` bytes, or nothing where
    /// the text has no GBK form or does not fit.
    pub fn serialize(&self, serializer: &mut Serializer) -> (r: Result<(), Error>)
        ensures
            final(serializer).wrote(old(serializer), r, self.wire()),
            r is Ok ==> final(serializer)@.len() == old(serializer)@.len() + O::LENGTH,
    {
        serializer.serialize_gbk_string(self)
    }

    /// Reads the text from a field of `O::LENGTH` bytes.
    pub fn deserialize(deserializer: &mut Deserializer) -> (r: Result<Self, Error>)
        ensures
            final(deserializer).yields_view(
                old(deserializer),
                r,
                field_decoding(old(deserializer).remaining(), O::LENGTH as nat),
            ),
    {
        let visitor = StringVisitor::<O>::new();
        visitor.visit_seq(deserializer)
    }
}

/// Gathers the bytes of a field one by one and reads the text they hold.
pub struct StringVisitor<O> {
    pub _marker: PhantomData<O>,
}

impl<O: Options> StringVisitor<O> {
    pub fn new() -> Self {
        Self { _marker: PhantomData }
    }

    /// Takes `O::LENGTH` bytes from `seq`, one element at a time, and reads
    /// what stands before the first zero byte as GBK. Where fewer bytes
    /// remain, or the bytes are not GBK text, `seq` stays where it was.
    pub fn visit_seq(self, seq: &mut Deserializer) -> (r: Result<GBKString<O>, Error>)
        ensures
            final(seq).yields_view(
                old(seq),
                r,
                field_decoding(old(seq).remaining(), O::LENGTH as nat),
            ),
    {
        let ghost s = seq.remaining();
        let mut cursor = seq.fork();
        let mut buff: Vec<u8> = Vec::new();
        let mut i: usize = 0;
        while i < O::LENGTH
            invariant
                i <= O::LENGTH,
                s == old(seq).remaining(),
                *seq == *old(seq),
                cursor.after(old(seq), i as nat),
                i <= s.len(),
                buff@ == s.take(i as int),
            decreases O::LENGTH - i,
        {
            proof {
                cursor.lemma_after(old(seq), i as nat);
            }
            let byte: u8 = cursor.deserialize_u8()?;
            buff.push(byte);
            assert(buff@ =~= s.take(i + 1));
            i = i + 1;
        }
        let p: usize = position_of_nul(buff.as_slice());
        buff.truncate(p);
        assert(buff@ =~= until_nul(s.take(O::LENGTH as int)));
        match gbk_decode(buff.as_slice()) {
            Some(message) => {
                *seq = cursor;
                Ok(GBKString::from(message))
            },
            None => Err(Error::GBK),
        }
    }
}

} // verus!
