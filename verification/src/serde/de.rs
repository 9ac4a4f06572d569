//! Reading: a cursor over the bytes of one input.
//!
//! Every read either succeeds and moves the cursor past what it read, or
//! fails and leaves the cursor where it stood.

use vstd::prelude::*;
use vstd::slice::{slice_subrange, slice_to_vec};

use byteorder::ByteOrder;

use crate::serde::error::Error;
use crate::serde::gbk::{
    decode_fixed, first_nul, fixed_decoding, gbk_decode, gbk_decoding, position_of_nul, until_nul,
};
use crate::serde::hexstr::{hex_decode, hex_decoding};
use crate::serde::value::{lemma_view_of_items, views, Shape, Value, ValueView};

verus! {

/// The unsigned 16-bit integer whose big-endian bytes are `b0`, `b1`.
pub open spec fn be16(b0: u8, b1: u8) -> u16 {
    (b0 as int * 256 + b1 as int) as u16
}

/// The unsigned 32-bit integer whose big-endian bytes are `b0` to `b3`.
pub open spec fn be32(b0: u8, b1: u8, b2: u8, b3: u8) -> u32 {
    (((b0 as int * 256 + b1 as int) * 256 + b2 as int) * 256 + b3 as int) as u32
}

/// Calls `byteorder::ByteOrder::read_u16` of `byteorder::BigEndian`.
/// Trusted: it returns the integer that the first two bytes of `buf` spell,
/// most significant byte first. The outside function panics on a shorter
/// slice, which `requires` leaves out.
#[verifier::external_body]
fn be_read_u16(buf: &[u8]) -> (v: u16)
    requires
        buf@.len() >= 2,
    ensures
        v == be16(buf@[0], buf@[1]),
{
    byteorder::BigEndian::read_u16(buf)
}

/// Calls `byteorder::ByteOrder::read_u32` of `byteorder::BigEndian`.
/// Trusted: it returns the integer that the first four bytes of `buf`
/// spell, most significant byte first. The outside function panics on a
/// shorter slice, which `requires` leaves out.
#[verifier::external_body]
fn be_read_u32(buf: &[u8]) -> (v: u32)
    requires
        buf@.len() >= 4,
    ensures
        v == be32(buf@[0], buf@[1], buf@[2], buf@[3]),
{
    byteorder::BigEndian::read_u32(buf)
}

/// How many bytes a discriminant occupies.
#[derive(Debug, Clone, Copy, PartialEq, Eq)]
pub enum TagWidth {
    One,
    Two,
}

/// One byte.
pub open spec fn u8_decoding(s: Seq<u8>) -> Result<(u8, nat), Error> {
    if s.len() < 1 {
        Err(Error::UnexpectedEof)
    } else {
        Ok((s[0], 1))
    }
}

/// Two bytes, big-endian.
pub open spec fn u16_decoding(s: Seq<u8>) -> Result<(u16, nat), Error> {
    if s.len() < 2 {
        Err(Error::UnexpectedEof)
    } else {
        Ok((be16(s[0], s[1]), 2))
    }
}

/// Four bytes, big-endian.
pub open spec fn u32_decoding(s: Seq<u8>) -> Result<(u32, nat), Error> {
    if s.len() < 4 {
        Err(Error::UnexpectedEof)
    } else {
        Ok((be32(s[0], s[1], s[2], s[3]), 4))
    }
}

/// A discriminant of the given width, as an integer.
pub open spec fn tag_decoding(s: Seq<u8>, width: TagWidth) -> Result<(u16, nat), Error> {
    match width {
        TagWidth::One => match u8_decoding(s) {
            Ok((v, n)) => Ok((v as u16, n)),
            Err(e) => Err(e),
        },
        TagWidth::Two => u16_decoding(s),
    }
}

/// The first `n` bytes, as they are.
pub open spec fn block_decoding(s: Seq<u8>, n: nat) -> Result<(Seq<u8>, nat), Error> {
    if s.len() < n {
        Err(Error::UnexpectedEof)
    } else {
        Ok((s.take(n as int), n))
    }
}

/// The bytes before the first zero byte; the zero byte is consumed too.
pub open spec fn terminated_decoding(s: Seq<u8>) -> Result<(Seq<u8>, nat), Error> {
    if first_nul(s) >= s.len() {
        Err(Error::UnexpectedEof)
    } else {
        Ok((until_nul(s), first_nul(s) + 1))
    }
}

/// GBK text closed by one zero byte.
pub open spec fn str_decoding(s: Seq<u8>) -> Result<(Seq<char>, nat), Error> {
    match terminated_decoding(s) {
        Err(e) => Err(e),
        Ok((bytes, n)) => match gbk_decoding(bytes) {
            None => Err(Error::GBK),
            Some(text) => Ok((text, n)),
        },
    }
}

/// GBK text in a field of `width` bytes.
pub open spec fn field_decoding(s: Seq<u8>, width: nat) -> Result<(Seq<char>, nat), Error> {
    if s.len() < width {
        Err(Error::UnexpectedEof)
    } else {
        match fixed_decoding(s.take(width as int)) {
            Err(e) => Err(e),
            Ok(text) => Ok((text, width)),
        }
    }
}

/// One presence byte: 0 for absent, 1 for present.
pub open spec fn presence_decoding(s: Seq<u8>) -> Result<(bool, nat), Error> {
    if s.len() < 1 {
        Err(Error::UnexpectedEof)
    } else if s[0] == 0 {
        Ok((false, 1))
    } else if s[0] == 1 {
        Ok((true, 1))
    } else {
        Err(Error::InvalidOptionTag)
    }
}

/// What reading a value of `shape` from the front of `s` gives: the value
/// and the number of bytes it occupies, or the error of the first field that
/// cannot be read.
pub open spec fn value_decoding(shape: Shape, s: Seq<u8>) -> Result<(ValueView, nat), Error>
    decreases shape, 0nat,
{
    match shape {
        Shape::U8 => match u8_decoding(s) {
            Ok((v, n)) => Ok((ValueView::U8(v), n)),
            Err(e) => Err(e),
        },
        Shape::U16 => match u16_decoding(s) {
            Ok((v, n)) => Ok((ValueView::U16(v), n)),
            Err(e) => Err(e),
        },
        Shape::U32 => match u32_decoding(s) {
            Ok((v, n)) => Ok((ValueView::U32(v), n)),
            Err(e) => Err(e),
        },
        Shape::Str => match str_decoding(s) {
            Ok((text, n)) => Ok((ValueView::Str(text), n)),
            Err(e) => Err(e),
        },
        Shape::Bytes(width) => match block_decoding(s, width as nat) {
            Ok((block, n)) => Ok((ValueView::Bytes(block), n)),
            Err(e) => Err(e),
        },
        Shape::Gbk(width) => match field_decoding(s, width as nat) {
            Ok((text, n)) => Ok((ValueView::Gbk(text, width), n)),
            Err(e) => Err(e),
        },
        Shape::Optional(inner) => match option_decoding(*inner, s) {
            Ok((None, n)) => Ok((ValueView::Optional(None), n)),
            Ok((Some(v), n)) => Ok((ValueView::Optional(Some(Box::new(v))), n)),
            Err(e) => Err(e),
        },
        Shape::Newtype(inner) => match value_decoding(*inner, s) {
            Ok((v, n)) => Ok((ValueView::Newtype(Box::new(v)), n)),
            Err(e) => Err(e),
        },
        Shape::Tuple(items) => match items_decoding(items@, items@.len(), s) {
            Ok((vs, n)) => Ok((ValueView::Tuple(vs), n)),
            Err(e) => Err(e),
        },
        Shape::Struct(fields) => match items_decoding(fields@, fields@.len(), s) {
            Ok((vs, n)) => Ok((ValueView::Struct(vs), n)),
            Err(e) => Err(e),
        },
        Shape::Array(element, count) => match repeat_decoding(*element, count as nat, s) {
            Ok((vs, n)) => Ok((ValueView::Array(vs), n)),
            Err(e) => Err(e),
        },
        _ => Err(Error::Unsupported),
    }
}

/// A presence byte and, where it says so, a value of shape `inner`.
pub open spec fn option_decoding(inner: Shape, s: Seq<u8>) -> Result<
    (Option<ValueView>, nat),
    Error,
>
    decreases inner, 1nat,
{
    match presence_decoding(s) {
        Err(e) => Err(e),
        Ok((false, n)) => Ok((None, n)),
        Ok((true, n)) => match value_decoding(inner, s.skip(n as int)) {
            Err(e) => Err(e),
            Ok((v, m)) => Ok((Some(v), n + m)),
        },
    }
}

/// The first `k` of `shapes`, read one after another.
pub open spec fn items_decoding(shapes: Seq<Shape>, k: nat, s: Seq<u8>) -> Result<
    (Seq<ValueView>, nat),
    Error,
>
    decreases shapes, k,
{
    if k == 0 || k > shapes.len() {
        Ok((Seq::empty(), 0))
    } else {
        match items_decoding(shapes, (k - 1) as nat, s) {
            Err(e) => Err(e),
            Ok((vs, n)) => match value_decoding(shapes[k - 1], s.skip(n as int)) {
                Err(e) => Err(e),
                Ok((v, m)) => Ok((vs.push(v), n + m)),
            },
        }
    }
}

/// `k` values of one shape, read one after another.
pub open spec fn repeat_decoding(shape: Shape, k: nat, s: Seq<u8>) -> Result<
    (Seq<ValueView>, nat),
    Error,
>
    decreases shape, k + 1,
{
    if k == 0 {
        Ok((Seq::empty(), 0))
    } else {
        match repeat_decoding(shape, (k - 1) as nat, s) {
            Err(e) => Err(e),
            Ok((vs, n)) => match value_decoding(shape, s.skip(n as int)) {
                Err(e) => Err(e),
                Ok((v, m)) => Ok((vs.push(v), n + m)),
            },
        }
    }
}

/// Once an item cannot be read, no longer run of items can.
pub proof fn lemma_items_error_stays(shapes: Seq<Shape>, i: nat, k: nat, s: Seq<u8>)
    requires
        i <= k <= shapes.len(),
        items_decoding(shapes, i, s) is Err,
    ensures
        items_decoding(shapes, k, s) == items_decoding(shapes, i, s),
    decreases k,
{
    if i < k {
        lemma_items_error_stays(shapes, i, (k - 1) as nat, s);
    }
}

/// Once an element cannot be read, no longer run of elements can.
pub proof fn lemma_repeat_error_stays(shape: Shape, i: nat, k: nat, s: Seq<u8>)
    requires
        i <= k,
        repeat_decoding(shape, i, s) is Err,
    ensures
        repeat_decoding(shape, k, s) == repeat_decoding(shape, i, s),
    decreases k,
{
    if i < k {
        lemma_repeat_error_stays(shape, i, (k - 1) as nat, s);
    }
}

/// A cursor over the bytes of one input.
pub struct Deserializer<'a> {
    reader: &'a [u8],
    pos: usize,
}

impl<'a> Deserializer<'a> {
    #[verifier::type_invariant]
    spec fn inv(self) -> bool {
        self.pos <= self.reader@.len()
    }

    /// All the bytes the cursor was made over.
    pub closed spec fn input(&self) -> Seq<u8> {
        self.reader@
    }

    /// How many bytes have been consumed.
    pub closed spec fn position(&self) -> nat {
        self.pos as nat
    }

    /// The bytes not yet consumed.
    pub open spec fn remaining(&self) -> Seq<u8> {
        self.input().skip(self.position() as int)
    }

    /// `self` is `before` moved forward by `n` bytes, and stands inside the
    /// input.
    pub open spec fn after(&self, before: &Self, n: nat) -> bool {
        &&& self.input() == before.input()
        &&& self.position() == before.position() + n
        &&& self.position() <= self.input().len()
    }

    /// The read that ended in `self` and gave `r` did what `expected` says:
    /// the same value with the cursor moved past it, or the same error with
    /// the cursor where it was.
    pub open spec fn yields<T, E>(
        &self,
        before: &Self,
        r: Result<T, E>,
        expected: Result<(T, nat), E>,
    ) -> bool {
        match expected {
            Ok((v, n)) => r == Ok::<T, E>(v) && self.after(before, n),
            Err(e) => r == Err::<T, E>(e) && self.after(before, 0),
        }
    }

    /// As [`Self::yields`], for a result that is known by its view.
    pub open spec fn yields_view<T: View, E>(
        &self,
        before: &Self,
        r: Result<T, E>,
        expected: Result<(T::V, nat), E>,
    ) -> bool {
        match expected {
            Ok((v, n)) => r is Ok && r->Ok_0@ == v && self.after(before, n),
            Err(e) => r == Err::<T, E>(e) && self.after(before, 0),
        }
    }

    /// As [`Self::yields`], for a run of values.
    pub open spec fn yields_views(
        &self,
        before: &Self,
        r: Result<Vec<Value>, Error>,
        expected: Result<(Seq<ValueView>, nat), Error>,
    ) -> bool {
        match expected {
            Ok((vs, n)) => r is Ok && views(r->Ok_0@) == vs && self.after(before, n),
            Err(e) => r == Err::<Vec<Value>, Error>(e) && self.after(before, 0),
        }
    }

    /// What remains after a move of `n` bytes is what remained before,
    /// without its first `n` bytes.
    pub proof fn lemma_after(&self, before: &Self, n: nat)
        requires
            self.after(before, n),
        ensures
            self.remaining() == before.remaining().skip(n as int),
            before.remaining().len() >= n,
    {
        assert(self.remaining() =~= before.remaining().skip(n as int));
    }

    /// A cursor at the start of `read`.
    pub fn new(read: &'a [u8]) -> (de: Self)
        ensures
            de.input() == read@,
            de.position() == 0,
            de.remaining() == read@,
    {
        assert(read@.skip(0) =~= read@);
        Deserializer { reader: read, pos: 0 }
    }

    /// A second cursor at the same place of the same input. A reader of
    /// several fields works on one and, when all of them are read, puts it
    /// in the place of the first.
    pub fn fork(&self) -> (cursor: Self)
        ensures
            cursor == *self,
            cursor.after(self, 0),
    {
        proof {
            use_type_invariant(self);
        }
        Deserializer { reader: self.reader, pos: self.pos }
    }

    /// How many bytes have been consumed.
    pub fn consumed(&self) -> (n: usize)
        ensures
            n == self.position(),
            n <= self.input().len(),
    {
        proof {
            use_type_invariant(self);
        }
        self.pos
    }

    /// How many bytes are left.
    pub fn remaining_len(&self) -> (n: usize)
        ensures
            n == self.remaining().len(),
            self.position() + n == self.input().len(),
    {
        proof {
            use_type_invariant(self);
        }
        self.reader.len() - self.pos
    }

    /// Reads one byte.
    pub fn deserialize_u8(&mut self) -> (r: Result<u8, Error>)
        ensures
            final(self).yields(old(self), r, u8_decoding(old(self).remaining())),
    {
        proof {
            use_type_invariant(&*self);
        }
        if self.pos < self.reader.len() {
            let v: u8 = self.reader[self.pos];
            self.pos = self.pos + 1;
            Ok(v)
        } else {
            Err(Error::UnexpectedEof)
        }
    }

    /// Reads two bytes as a big-endian integer.
    pub fn deserialize_u16(&mut self) -> (r: Result<u16, Error>)
        ensures
            final(self).yields(old(self), r, u16_decoding(old(self).remaining())),
    {
        proof {
            use_type_invariant(&*self);
        }
        if self.reader.len() - self.pos >= 2 {
            let v: u16 = be_read_u16(slice_subrange(self.reader, self.pos, self.pos + 2));
            self.pos = self.pos + 2;
            Ok(v)
        } else {
            Err(Error::UnexpectedEof)
        }
    }

    /// Reads four bytes as a big-endian integer.
    pub fn deserialize_u32(&mut self) -> (r: Result<u32, Error>)
        ensures
            final(self).yields(old(self), r, u32_decoding(old(self).remaining())),
    {
        proof {
            use_type_invariant(&*self);
        }
        if self.reader.len() - self.pos >= 4 {
            let v: u32 = be_read_u32(slice_subrange(self.reader, self.pos, self.pos + 4));
            self.pos = self.pos + 4;
            Ok(v)
        } else {
            Err(Error::UnexpectedEof)
        }
    }

    /// Reads a discriminant of one or two bytes. Which named value it
    /// stands for is the caller's to say.
    pub fn deserialize_tag(&mut self, width: TagWidth) -> (r: Result<u16, Error>)
        ensures
            final(self).yields(old(self), r, tag_decoding(old(self).remaining(), width)),
    {
        match width {
            TagWidth::One => match self.deserialize_u8() {
                Ok(v) => Ok(v as u16),
                Err(e) => Err(e),
            },
            TagWidth::Two => self.deserialize_u16(),
        }
    }

    /// Reads `len` bytes as they are.
    pub fn read_bytes(&mut self, len: usize) -> (r: Result<Vec<u8>, Error>)
        ensures
            final(self).yields_view(
                old(self),
                r,
                block_decoding(old(self).remaining(), len as nat),
            ),
    {
        proof {
            use_type_invariant(&*self);
        }
        if self.reader.len() - self.pos < len {
            return Err(Error::UnexpectedEof);
        }
        let buff: Vec<u8> = slice_to_vec(slice_subrange(self.reader, self.pos, self.pos + len));
        assert(buff@ =~= self.remaining().take(len as int));
        self.pos = self.pos + len;
        Ok(buff)
    }

    /// Reads a block of `width` raw bytes.
    pub fn deserialize_bytes(&mut self, width: usize) -> (r: Result<Vec<u8>, Error>)
        ensures
            final(self).yields_view(
                old(self),
                r,
                block_decoding(old(self).remaining(), width as nat),
            ),
    {
        self.read_bytes(width)
    }

    /// Reads a block of `width` raw bytes.
    pub fn deserialize_byte_buf(&mut self, width: usize) -> (r: Result<Vec<u8>, Error>)
        ensures
            final(self).yields_view(
                old(self),
                r,
                block_decoding(old(self).remaining(), width as nat),
            ),
    {
        self.read_bytes(width)
    }

    /// Reads up to the first zero byte, which is consumed and not returned.
    pub fn read_until_string_end(&mut self) -> (r: Result<Vec<u8>, Error>)
        ensures
            final(self).yields_view(old(self), r, terminated_decoding(old(self).remaining())),
    {
        proof {
            use_type_invariant(&*self);
        }
        let rest = slice_subrange(self.reader, self.pos, self.reader.len());
        assert(rest@ =~= self.remaining());
        let p: usize = position_of_nul(rest);
        if p >= rest.len() {
            return Err(Error::UnexpectedEof);
        }
        let ret: Vec<u8> = slice_to_vec(slice_subrange(rest, 0, p));
        self.pos = self.pos + p + 1;
        Ok(ret)
    }

    /// Reads GBK text closed by one zero byte.
    pub fn deserialize_string(&mut self) -> (r: Result<String, Error>)
        ensures
            final(self).yields_view(old(self), r, str_decoding(old(self).remaining())),
    {
        proof {
            use_type_invariant(&*self);
        }
        let start: usize = self.pos;
        let buff: Vec<u8> = self.read_until_string_end()?;
        match gbk_decode(buff.as_slice()) {
            Some(text) => Ok(text),
            None => {
                self.pos = start;
                Err(Error::GBK)
            },
        }
    }

    /// Reads GBK text closed by one zero byte.
    pub fn deserialize_str(&mut self) -> (r: Result<String, Error>)
        ensures
            final(self).yields_view(old(self), r, str_decoding(old(self).remaining())),
    {
        self.deserialize_string()
    }

    /// Reads GBK text from a field of `width` bytes. Never more than
    /// `width` bytes are consumed.
    pub fn deserialize_gbk_string(&mut self, width: usize) -> (r: Result<String, Error>)
        ensures
            final(self).yields_view(
                old(self),
                r,
                field_decoding(old(self).remaining(), width as nat),
            ),
    {
        proof {
            use_type_invariant(&*self);
        }
        if self.reader.len() - self.pos < width {
            return Err(Error::UnexpectedEof);
        }
        let field = slice_subrange(self.reader, self.pos, self.pos + width);
        assert(field@ =~= self.remaining().take(width as int));
        match decode_fixed(field) {
            Ok(text) => {
                self.pos = self.pos + width;
                Ok(text)
            },
            Err(e) => Err(e),
        }
    }

    /// Reads one presence byte.
    pub fn deserialize_presence(&mut self) -> (r: Result<bool, Error>)
        ensures
            final(self).yields(old(self), r, presence_decoding(old(self).remaining())),
    {
        proof {
            use_type_invariant(&*self);
        }
        if self.pos >= self.reader.len() {
            return Err(Error::UnexpectedEof);
        }
        let tag: u8 = self.reader[self.pos];
        if tag == 0 {
            self.pos = self.pos + 1;
            Ok(false)
        } else if tag == 1 {
            self.pos = self.pos + 1;
            Ok(true)
        } else {
            Err(Error::InvalidOptionTag)
        }
    }

    /// Reads a value of the given shape.
    pub fn deserialize_value(&mut self, shape: &Shape) -> (r: Result<Value, Error>)
        ensures
            final(self).yields_view(old(self), r, value_decoding(*shape, old(self).remaining())),
        decreases shape, 0nat,
    {
        match shape {
            Shape::U8 => match self.deserialize_u8() {
                Ok(v) => Ok(Value::U8(v)),
                Err(e) => Err(e),
            },
            Shape::U16 => match self.deserialize_u16() {
                Ok(v) => Ok(Value::U16(v)),
                Err(e) => Err(e),
            },
            Shape::U32 => match self.deserialize_u32() {
                Ok(v) => Ok(Value::U32(v)),
                Err(e) => Err(e),
            },
            Shape::Str => match self.deserialize_string() {
                Ok(text) => Ok(Value::Str(text)),
                Err(e) => Err(e),
            },
            Shape::Bytes(width) => match self.deserialize_bytes(*width) {
                Ok(block) => Ok(Value::Bytes(block)),
                Err(e) => Err(e),
            },
            Shape::Gbk(width) => match self.deserialize_gbk_string(*width) {
                Ok(text) => Ok(Value::Gbk(text, *width)),
                Err(e) => Err(e),
            },
            Shape::Optional(inner) => match self.deserialize_option(&**inner) {
                Ok(None) => Ok(Value::Optional(None)),
                Ok(Some(v)) => Ok(Value::Optional(Some(Box::new(v)))),
                Err(e) => Err(e),
            },
            Shape::Newtype(inner) => match self.deserialize_newtype_struct(&**inner) {
                Ok(v) => Ok(Value::Newtype(Box::new(v))),
                Err(e) => Err(e),
            },
            Shape::Tuple(items) => match self.deserialize_tuple(items) {
                Ok(values) => {
                    proof {
                        lemma_view_of_items(values);
                    }
                    Ok(Value::Tuple(values))
                },
                Err(e) => Err(e),
            },
            Shape::Struct(fields) => match self.deserialize_struct(fields) {
                Ok(values) => {
                    proof {
                        lemma_view_of_items(values);
                    }
                    Ok(Value::Struct(values))
                },
                Err(e) => Err(e),
            },
            Shape::Array(element, count) => match self.deserialize_seq(&**element, *count) {
                Ok(values) => {
                    proof {
                        lemma_view_of_items(values);
                    }
                    Ok(Value::Array(values))
                },
                Err(e) => Err(e),
            },
            Shape::Union => self.deserialize_enum(),
            _ => {
                proof {
                    use_type_invariant(&*self);
                }
                Err(Error::Unsupported)
            },
        }
    }

    /// Reads a presence byte and, where it is 1, a value of shape `inner`.
    pub fn deserialize_option(&mut self, inner: &Shape) -> (r: Result<Option<Value>, Error>)
        ensures
            match option_decoding(*inner, old(self).remaining()) {
                Ok((None, n)) => r == Ok::<Option<Value>, Error>(None)
                    && final(self).after(old(self), n),
                Ok((Some(v), n)) => r is Ok && r->Ok_0 is Some && r->Ok_0->Some_0@ == v
                    && final(self).after(old(self), n),
                Err(e) => r == Err::<Option<Value>, Error>(e) && final(self).after(old(self), 0),
            },
        decreases inner, 1nat,
    {
        proof {
            use_type_invariant(&*self);
        }
        let ghost before = *self;
        let start: usize = self.pos;
        let present: bool = self.deserialize_presence()?;
        if !present {
            return Ok(None);
        }
        proof {
            self.lemma_after(&before, 1);
        }
        match self.deserialize_value(inner) {
            Ok(v) => Ok(Some(v)),
            Err(e) => {
                self.pos = start;
                Err(e)
            },
        }
    }

    /// Reads a value of shape `inner`: the wrapper leaves no trace on the
    /// wire.
    pub fn deserialize_newtype_struct(&mut self, inner: &Shape) -> (r: Result<Value, Error>)
        ensures
            final(self).yields_view(old(self), r, value_decoding(*inner, old(self).remaining())),
        decreases inner, 1nat,
    {
        self.deserialize_value(inner)
    }

    /// Reads one value for each of `shapes`, in order. The first value that
    /// cannot be read fails the whole run: no later one is tried.
    pub fn deserialize_tuple(&mut self, shapes: &Vec<Shape>) -> (r: Result<Vec<Value>, Error>)
        ensures
            final(self).yields_views(
                old(self),
                r,
                items_decoding(shapes@, shapes@.len(), old(self).remaining()),
            ),
        decreases shapes, 0nat,
    {
        proof {
            use_type_invariant(&*self);
        }
        let ghost before = *self;
        let ghost s = self.remaining();
        let start: usize = self.pos;
        let mut out: Vec<Value> = Vec::new();
        let mut i: usize = 0;
        assert(views(out@) =~= Seq::<ValueView>::empty());
        while i < shapes.len()
            invariant
                i <= shapes@.len(),
                before == *old(self),
                start == before.position(),
                s == before.remaining(),
                self.after(&before, (self.pos - start) as nat),
                start <= self.pos <= self.reader@.len(),
                items_decoding(shapes@, i as nat, s) == Ok::<(Seq<ValueView>, nat), Error>(
                    (views(out@), (self.pos - start) as nat),
                ),
            decreases shapes@.len() - i,
        {
            let ghost done = views(out@);
            proof {
                self.lemma_after(&before, (self.pos - start) as nat);
            }
            match self.deserialize_value(&shapes[i]) {
                Ok(v) => {
                    out.push(v);
                    assert(views(out@) =~= done.push(v@));
                },
                Err(e) => {
                    self.pos = start;
                    proof {
                        lemma_items_error_stays(shapes@, (i + 1) as nat, shapes@.len(), s);
                    }
                    return Err(e);
                },
            }
            i = i + 1;
        }
        Ok(out)
    }

    /// Reads the fields of a record in the order of their declaration.
    /// Field names are not on the wire.
    pub fn deserialize_struct(&mut self, fields: &Vec<Shape>) -> (r: Result<Vec<Value>, Error>)
        ensures
            final(self).yields_views(
                old(self),
                r,
                items_decoding(fields@, fields@.len(), old(self).remaining()),
            ),
        decreases fields, 1nat,
    {
        self.deserialize_tuple(fields)
    }

    /// Reads `count` values of one shape. The count comes from the caller,
    /// not from the wire.
    pub fn deserialize_seq(&mut self, element: &Shape, count: usize) -> (r: Result<
        Vec<Value>,
        Error,
    >)
        ensures
            final(self).yields_views(
                old(self),
                r,
                repeat_decoding(*element, count as nat, old(self).remaining()),
            ),
        decreases element, 1nat,
    {
        proof {
            use_type_invariant(&*self);
        }
        let ghost before = *self;
        let ghost s = self.remaining();
        let start: usize = self.pos;
        let mut out: Vec<Value> = Vec::new();
        let mut i: usize = 0;
        assert(views(out@) =~= Seq::<ValueView>::empty());
        while i < count
            invariant
                i <= count,
                before == *old(self),
                start == before.position(),
                s == before.remaining(),
                self.after(&before, (self.pos - start) as nat),
                start <= self.pos <= self.reader@.len(),
                repeat_decoding(*element, i as nat, s) == Ok::<(Seq<ValueView>, nat), Error>(
                    (views(out@), (self.pos - start) as nat),
                ),
            decreases count - i,
        {
            let ghost done = views(out@);
            proof {
                self.lemma_after(&before, (self.pos - start) as nat);
            }
            match self.deserialize_value(element) {
                Ok(v) => {
                    out.push(v);
                    assert(views(out@) =~= done.push(v@));
                },
                Err(e) => {
                    self.pos = start;
                    proof {
                        lemma_repeat_error_stays(*element, (i + 1) as nat, count as nat, s);
                    }
                    return Err(e);
                },
            }
            i = i + 1;
        }
        Ok(out)
    }

    /// A union cannot be read here: nothing on the wire says which variant
    /// follows. The caller picks the variant from a discriminant it has
    /// read, and asks for that variant's shape.
    pub fn deserialize_enum(&mut self) -> (r: Result<Value, Error>)
        ensures
            r == Err::<Value, Error>(Error::Unsupported),
            final(self).after(old(self), 0),
    {
        proof {
            use_type_invariant(&*self);
        }
        Err(Error::Unsupported)
    }
}

/// Hands out the elements of a sequence one at a time, for as long as the
/// caller asks: how many there are is the caller's to know.
pub struct SeqAccess<'a, 'b> {
    pub de: &'b mut Deserializer<'a>,
}

impl<'a, 'b> SeqAccess<'a, 'b> {
    /// An access that reads through `de`: what it consumes, `de` has
    /// consumed when the access is given up.
    pub fn new(de: &'b mut Deserializer<'a>) -> (access: Self)
        ensures
            *access.de == *old(de),
            *final(de) == *final(access.de),
    {
        Self { de }
    }

    /// Reads the next element, of the given shape. There is always a next
    /// element to ask for: the result is never `Ok(None)`.
    pub fn next_element(&mut self, shape: &Shape) -> (r: Result<Option<Value>, Error>)
        ensures
            *final(final(self).de) == *final(old(self).de),
            match value_decoding(*shape, old(self).de.remaining()) {
                Ok((v, n)) => r is Ok && r->Ok_0 is Some && r->Ok_0->Some_0@ == v
                    && final(self).de.after(old(self).de, n),
                Err(e) => r == Err::<Option<Value>, Error>(e)
                    && final(self).de.after(old(self).de, 0),
            },
    {
        match self.de.deserialize_value(shape) {
            Ok(v) => Ok(Some(v)),
            Err(e) => Err(e),
        }
    }
}

/// Reads one value of the given shape from the bytes that `s` spells in
/// hexadecimal digits.
pub fn from_str(shape: &Shape, s: &str) -> (r: Result<Value, Error>)
    ensures
        match hex_decoding(s@) {
            None => r is Err && r->Err_0 is HexString,
            Some(buff) => match value_decoding(*shape, buff) {
                Ok((v, n)) => r is Ok && r->Ok_0@ == v,
                Err(e) => r == Err::<Value, Error>(e),
            },
        },
{
    let buff: Vec<u8> = match hex_decode(s) {
        Ok(buff) => buff,
        Err(e) => { return Err(Error::HexString(e)); },
    };
    from_bytes(shape, buff.as_slice())
}

/// Reads one value of the given shape from the front of `buff`. Bytes after
/// the value are left alone.
pub fn from_bytes(shape: &Shape, buff: &[u8]) -> (r: Result<Value, Error>)
    ensures
        match value_decoding(*shape, buff@) {
            Ok((v, n)) => r is Ok && r->Ok_0@ == v,
            Err(e) => r == Err::<Value, Error>(e),
        },
{
    let mut deserializer = Deserializer::new(buff);
    deserializer.deserialize_value(shape)
}

} // verus!
