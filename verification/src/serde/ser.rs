//! Writing: bytes appended to a growing buffer.
//!
//! Every write either succeeds and appends exactly the bytes of its value,
//! or fails and leaves the buffer as it was.

use vstd::prelude::*;

use byteorder::ByteOrder;

use crate::serde::de::{be16, be32, TagWidth};
use crate::serde::error::Error;
use crate::serde::gbk::{encode_fixed, fixed_encoding, gbk_encode, gbk_encoding, GBKString, Options};
use crate::serde::hexstr::{hex_encode_upper, hex_encoding_upper};
use crate::serde::value::{lemma_view_of_items, views, Value, ValueView};

verus! {

/// The two bytes of `v`, most significant first.
pub open spec fn u16_encoding(v: u16) -> Seq<u8> {
    seq![(v / 256) as u8, (v % 256) as u8]
}

/// The four bytes of `v`, most significant first.
pub open spec fn u32_encoding(v: u32) -> Seq<u8> {
    seq![
        (v / 16777216) as u8,
        ((v / 65536) % 256) as u8,
        ((v / 256) % 256) as u8,
        (v % 256) as u8,
    ]
}

/// Calls `byteorder::ByteOrder::write_u16` of `byteorder::BigEndian` on a
/// fresh array of two bytes. Trusted: the array then holds the two bytes of
/// `v`, most significant first.
#[verifier::external_body]
fn be_write_u16(v: u16) -> (bytes: [u8; 2])
    ensures
        bytes@ == u16_encoding(v),
{
    let mut bytes = [0u8; 2];
    byteorder::BigEndian::write_u16(&mut bytes, v);
    bytes
}

/// Calls `byteorder::ByteOrder::write_u32` of `byteorder::BigEndian` on a
/// fresh array of four bytes. Trusted: the array then holds the four bytes
/// of `v`, most significant first.
#[verifier::external_body]
fn be_write_u32(v: u32) -> (bytes: [u8; 4])
    ensures
        bytes@ == u32_encoding(v),
{
    let mut bytes = [0u8; 4];
    byteorder::BigEndian::write_u32(&mut bytes, v);
    bytes
}

/// The bytes written for an integer spell that integer, and the integer
/// that two bytes spell is written as those bytes.
pub proof fn lemma_u16_round_trip(v: u16, b0: u8, b1: u8)
    ensures
        be16(u16_encoding(v)[0], u16_encoding(v)[1]) == v,
        u16_encoding(be16(b0, b1)) == seq![b0, b1],
{
    assert(u16_encoding(be16(b0, b1)) =~= seq![b0, b1]);
}

/// The bytes written for an integer spell that integer, and the integer
/// that four bytes spell is written as those bytes.
pub proof fn lemma_u32_round_trip(v: u32, b0: u8, b1: u8, b2: u8, b3: u8)
    ensures
        be32(u32_encoding(v)[0], u32_encoding(v)[1], u32_encoding(v)[2], u32_encoding(v)[3]) == v,
        u32_encoding(be32(b0, b1, b2, b3)) == seq![b0, b1, b2, b3],
{
    assert(u32_encoding(be32(b0, b1, b2, b3)) =~= seq![b0, b1, b2, b3]);
}

/// A discriminant in a field of the given width. One that does not fit a
/// single byte names no value of an enumeration that is written in one.
pub open spec fn tag_encoding(width: TagWidth, discriminant: u16) -> Result<Seq<u8>, Error> {
    match width {
        TagWidth::One => if discriminant > 0xFF {
            Err(Error::UnknownDiscriminant)
        } else {
            Ok(seq![discriminant as u8])
        },
        TagWidth::Two => Ok(u16_encoding(discriminant)),
    }
}

/// GBK text closed by one zero byte.
pub open spec fn str_encoding(text: Seq<char>) -> Result<Seq<u8>, Error> {
    match gbk_encoding(text) {
        None => Err(Error::GBK),
        Some(bytes) => Ok(bytes.push(0u8)),
    }
}

/// The bytes that stand for a value, or the error of the first part of it
/// that cannot be written.
pub open spec fn value_encoding(value: ValueView) -> Result<Seq<u8>, Error>
    decreases value, 0nat,
{
    match value {
        ValueView::U8(v) => Ok(seq![v]),
        ValueView::U16(v) => Ok(u16_encoding(v)),
        ValueView::U32(v) => Ok(u32_encoding(v)),
        ValueView::Str(text) => str_encoding(text),
        ValueView::Bytes(block) => Ok(block),
        ValueView::Gbk(text, width) => fixed_encoding(text, width as nat),
        ValueView::Optional(None) => Ok(seq![0u8]),
        ValueView::Optional(Some(inner)) => match value_encoding(*inner) {
            Ok(bytes) => Ok(seq![1u8] + bytes),
            Err(e) => Err(e),
        },
        ValueView::Newtype(inner) => value_encoding(*inner),
        ValueView::Tuple(items) => items_encoding(items, items.len()),
        ValueView::Struct(fields) => items_encoding(fields, fields.len()),
        ValueView::Array(elements) => items_encoding(elements, elements.len()),
        _ => Err(Error::Unsupported),
    }
}

/// The first `k` of `items`, written one after another.
pub open spec fn items_encoding(items: Seq<ValueView>, k: nat) -> Result<Seq<u8>, Error>
    decreases items, k,
{
    if k == 0 || k > items.len() {
        Ok(Seq::empty())
    } else {
        match items_encoding(items, (k - 1) as nat) {
            Err(e) => Err(e),
            Ok(head) => match value_encoding(items[k - 1]) {
                Err(e) => Err(e),
                Ok(bytes) => Ok(head + bytes),
            },
        }
    }
}

/// Once an item cannot be written, no longer run of items can.
pub proof fn lemma_items_encoding_error_stays(items: Seq<ValueView>, i: nat, k: nat)
    requires
        i <= k <= items.len(),
        items_encoding(items, i) is Err,
    ensures
        items_encoding(items, k) == items_encoding(items, i),
    decreases k,
{
    if i < k {
        lemma_items_encoding_error_stays(items, i, (k - 1) as nat);
    }
}

/// A buffer that values are written to.
pub struct Serializer {
    writer: Vec<u8>,
}

impl View for Serializer {
    type V = Seq<u8>;

    /// The bytes written so far.
    closed spec fn view(&self) -> Seq<u8> {
        self.writer@
    }
}

impl Serializer {
    /// The write that ended in `self` and gave `r` did what `expected`
    /// says: it appended those bytes, or failed with that error and
    /// appended nothing.
    pub open spec fn wrote(
        &self,
        before: &Self,
        r: Result<(), Error>,
        expected: Result<Seq<u8>, Error>,
    ) -> bool {
        match expected {
            Ok(bytes) => r is Ok && self@ == before@ + bytes,
            Err(e) => r == Err::<(), Error>(e) && self@ == before@,
        }
    }

    /// An empty buffer.
    pub fn new() -> (ser: Self)
        ensures
            ser@ == Seq::<u8>::empty(),
    {
        Serializer { writer: Vec::new() }
    }

    /// The bytes written.
    pub fn into_bytes(self) -> (bytes: Vec<u8>)
        ensures
            bytes@ == self@,
    {
        self.writer
    }

    /// How many bytes have been written.
    pub fn len(&self) -> (n: usize)
        ensures
            n == self@.len(),
    {
        self.writer.len()
    }

    /// Writes one byte.
    pub fn serialize_u8(&mut self, v: u8) -> (r: Result<(), Error>)
        ensures
            final(self).wrote(old(self), r, Ok(seq![v])),
    {
        self.writer.push(v);
        assert(self.writer@ =~= old(self).writer@ + seq![v]);
        Ok(())
    }

    /// Writes two bytes, most significant first.
    pub fn serialize_u16(&mut self, v: u16) -> (r: Result<(), Error>)
        ensures
            final(self).wrote(old(self), r, Ok(u16_encoding(v))),
    {
        let bytes: [u8; 2] = be_write_u16(v);
        self.writer.push(bytes[0]);
        self.writer.push(bytes[1]);
        assert(self.writer@ =~= old(self).writer@ + u16_encoding(v));
        Ok(())
    }

    /// Writes four bytes, most significant first.
    pub fn serialize_u32(&mut self, v: u32) -> (r: Result<(), Error>)
        ensures
            final(self).wrote(old(self), r, Ok(u32_encoding(v))),
    {
        let bytes: [u8; 4] = be_write_u32(v);
        self.writer.push(bytes[0]);
        self.writer.push(bytes[1]);
        self.writer.push(bytes[2]);
        self.writer.push(bytes[3]);
        assert(self.writer@ =~= old(self).writer@ + u32_encoding(v));
        Ok(())
    }

    /// Writes a discriminant in one or two bytes.
    pub fn serialize_tag(&mut self, width: TagWidth, discriminant: u16) -> (r: Result<(), Error>)
        ensures
            final(self).wrote(old(self), r, tag_encoding(width, discriminant)),
    {
        match width {
            TagWidth::One => if discriminant > 0xFF {
                Err(Error::UnknownDiscriminant)
            } else {
                self.serialize_u8(discriminant as u8)
            },
            TagWidth::Two => self.serialize_u16(discriminant),
        }
    }

    /// Writes bytes as they are.
    pub fn serialize_bytes(&mut self, v: &[u8]) -> (r: Result<(), Error>)
        ensures
            final(self).wrote(old(self), r, Ok(v@)),
    {
        self.writer.extend_from_slice(v);
        assert(self.writer@ =~= old(self).writer@ + v@);
        Ok(())
    }

    /// Writes a text in GBK, closed by one zero byte.
    pub fn serialize_str(&mut self, v: &str) -> (r: Result<(), Error>)
        ensures
            final(self).wrote(old(self), r, str_encoding(v@)),
    {
        let data: Vec<u8> = match gbk_encode(v) {
            Some(data) => data,
            None => { return Err(Error::GBK); },
        };
        self.writer.extend_from_slice(data.as_slice());
        self.writer.push(0u8);
        assert(self.writer@ =~= old(self).writer@ + data@.push(0u8));
        Ok(())
    }

    /// Writes a text into the field whose width its type gives: always
    /// `O::LENGTH` bytes, or nothing.
    pub fn serialize_gbk_string<O: Options>(&mut self, message: &GBKString<O>) -> (r: Result<
        (),
        Error,
    >)
        ensures
            final(self).wrote(old(self), r, message.wire()),
            r is Ok ==> final(self)@.len() == old(self)@.len() + O::LENGTH,
    {
        match encode_fixed(message.message.as_str(), O::LENGTH) {
            Ok(buff) => self.serialize_bytes(buff.as_slice()),
            Err(e) => Err(e),
        }
    }

    /// Writes the presence byte of an absent value.
    pub fn serialize_none(&mut self) -> (r: Result<(), Error>)
        ensures
            final(self).wrote(old(self), r, value_encoding(ValueView::Optional(None))),
    {
        self.serialize_u8(0u8)
    }

    /// Writes the presence byte of a present value, then the value.
    pub fn serialize_some(&mut self, value: &Value) -> (r: Result<(), Error>)
        ensures
            final(self).wrote(
                old(self),
                r,
                value_encoding(ValueView::Optional(Some(Box::new(value@)))),
            ),
        decreases value, 1nat,
    {
        let start: usize = self.writer.len();
        self.writer.push(1u8);
        match self.serialize_value(value) {
            Ok(()) => {
                assert(self@ =~= old(self)@ + (seq![1u8] + value_encoding(value@)->Ok_0));
                Ok(())
            },
            Err(e) => {
                self.writer.truncate(start);
                assert(self@ =~= old(self)@);
                Err(e)
            },
        }
    }

    /// Writes a value.
    pub fn serialize_value(&mut self, value: &Value) -> (r: Result<(), Error>)
        ensures
            final(self).wrote(old(self), r, value_encoding(value@)),
        decreases value, 0nat,
    {
        match value {
            Value::U8(v) => self.serialize_u8(*v),
            Value::U16(v) => self.serialize_u16(*v),
            Value::U32(v) => self.serialize_u32(*v),
            Value::Str(text) => self.serialize_str(text.as_str()),
            Value::Bytes(block) => self.serialize_bytes(block.as_slice()),
            Value::Gbk(text, width) => match encode_fixed(text.as_str(), *width) {
                Ok(buff) => self.serialize_bytes(buff.as_slice()),
                Err(e) => Err(e),
            },
            Value::Optional(None) => self.serialize_none(),
            Value::Optional(Some(inner)) => self.serialize_some(&**inner),
            Value::Newtype(inner) => self.serialize_newtype_struct(&**inner),
            Value::Tuple(items) => {
                proof {
                    lemma_view_of_items(*items);
                }
                self.serialize_tuple(items)
            },
            Value::Struct(fields) => {
                proof {
                    lemma_view_of_items(*fields);
                }
                self.serialize_struct(fields)
            },
            Value::Array(elements) => {
                proof {
                    lemma_view_of_items(*elements);
                }
                self.serialize_seq(elements)
            },
            _ => Err(Error::Unsupported),
        }
    }

    /// Writes the content of a wrapper, which leaves no trace on the wire.
    pub fn serialize_newtype_struct(&mut self, inner: &Value) -> (r: Result<(), Error>)
        ensures
            final(self).wrote(old(self), r, value_encoding(inner@)),
        decreases inner, 1nat,
    {
        self.serialize_value(inner)
    }

    /// Writes the items one after another. The first item that cannot be
    /// written fails the whole run, and nothing of it stays in the buffer.
    pub fn serialize_tuple(&mut self, items: &Vec<Value>) -> (r: Result<(), Error>)
        ensures
            final(self).wrote(old(self), r, items_encoding(views(items@), items@.len())),
        decreases items, 0nat,
    {
        let ghost before = self@;
        let ghost contents = views(items@);
        let start: usize = self.writer.len();
        let mut i: usize = 0;
        assert(self@ =~= before + Seq::<u8>::empty());
        while i < items.len()
            invariant
                i <= items@.len(),
                before == old(self)@,
                contents == views(items@),
                start == before.len(),
                items_encoding(contents, i as nat) is Ok,
                self@ == before + items_encoding(contents, i as nat)->Ok_0,
            decreases items@.len() - i,
        {
            let ghost head = items_encoding(contents, i as nat)->Ok_0;
            match self.serialize_value(&items[i]) {
                Ok(()) => {
                    assert(self@ =~= before + (head + value_encoding(contents[i as int])->Ok_0));
                },
                Err(e) => {
                    self.writer.truncate(start);
                    proof {
                        assert(self@ =~= before);
                        lemma_items_encoding_error_stays(contents, (i + 1) as nat, items@.len());
                    }
                    return Err(e);
                },
            }
            i = i + 1;
        }
        Ok(())
    }

    /// Writes the fields of a record in the order of their declaration.
    /// Field names are not written.
    pub fn serialize_struct(&mut self, fields: &Vec<Value>) -> (r: Result<(), Error>)
        ensures
            final(self).wrote(old(self), r, items_encoding(views(fields@), fields@.len())),
        decreases fields, 1nat,
    {
        self.serialize_tuple(fields)
    }

    /// Writes the elements of a sequence one after another. Their number is
    /// not written.
    pub fn serialize_seq(&mut self, elements: &Vec<Value>) -> (r: Result<(), Error>)
        ensures
            final(self).wrote(old(self), r, items_encoding(views(elements@), elements@.len())),
        decreases elements, 1nat,
    {
        self.serialize_tuple(elements)
    }
}

/// The bytes that stand for `input`, in upper-case hexadecimal digits.
pub fn to_string(input: &Value) -> (r: Result<String, Error>)
    ensures
        match value_encoding(input@) {
            Ok(bytes) => r is Ok && r->Ok_0@ == hex_encoding_upper(bytes),
            Err(e) => r == Err::<String, Error>(e),
        },
{
    let buff: Vec<u8> = to_bytes(input)?;
    Ok(hex_encode_upper(buff.as_slice()))
}

/// The bytes that stand for `input`.
pub fn to_bytes(input: &Value) -> (r: Result<Vec<u8>, Error>)
    ensures
        match value_encoding(input@) {
            Ok(bytes) => r is Ok && r->Ok_0@ == bytes,
            Err(e) => r == Err::<Vec<u8>, Error>(e),
        },
{
    let mut serializer = Serializer::new();
    match serializer.serialize_value(input) {
        Ok(()) => Ok(serializer.into_bytes()),
        Err(e) => Err(e),
    }
}

} // verus!
