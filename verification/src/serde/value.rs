//! The closed set of shapes that a value can have, and values themselves.
//!
//! The wire carries no types: a [`Shape`] tells the reader what to expect,
//! and a [`Value`] tells the writer what it holds. Some shapes have no place
//! in the format; they are listed so that asking for one is answered with
//! `Error::Unsupported` and never with a guess.

use vstd::prelude::*;

verus! {

/// What the reader is asked to read.
#[derive(Debug, PartialEq, Eq)]
pub enum Shape {
    /// One byte.
    U8,
    /// Two bytes, big-endian.
    U16,
    /// Four bytes, big-endian.
    U32,
    /// GBK text closed by one zero byte.
    Str,
    /// A block of so many raw bytes.
    Bytes(usize),
    /// GBK text in a field of so many bytes, padded with zero bytes.
    Gbk(usize),
    /// One presence byte, then the inner shape where it is 1.
    Optional(Box<Shape>),
    /// A wrapper that leaves no trace on the wire.
    Newtype(Box<Shape>),
    /// Elements of the given shapes, one after another.
    Tuple(Vec<Shape>),
    /// The fields of a record in the order of their declaration.
    Struct(Vec<Shape>),
    /// So many elements of one shape; the count is not on the wire.
    Array(Box<Shape>, usize),
    /// No place in the format.
    Bool,
    /// No place in the format.
    I8,
    /// No place in the format.
    I16,
    /// No place in the format.
    I32,
    /// No place in the format.
    I64,
    /// No place in the format.
    U64,
    /// Single-precision floating point: no place in the format.
    Float,
    /// Double-precision floating point: no place in the format.
    Double,
    /// No place in the format.
    Char,
    /// No place in the format.
    Unit,
    /// A sequence that would have to describe its own length: no place in
    /// the format.
    OpenSeq,
    /// A map: no place in the format.
    Dict,
    /// A union whose variant the wire would have to name: no place in the
    /// format. Variants are chosen one layer up, by a discriminant that was
    /// read before.
    Union,
}

/// What was read, or what is to be written.
#[derive(Debug, PartialEq, Eq)]
pub enum Value {
    U8(u8),
    U16(u16),
    U32(u32),
    Str(String),
    Bytes(Vec<u8>),
    /// The text and the width of its field.
    Gbk(String, usize),
    Optional(Option<Box<Value>>),
    Newtype(Box<Value>),
    Tuple(Vec<Value>),
    Struct(Vec<Value>),
    Array(Vec<Value>),
    /// No place in the format.
    Bool(bool),
    /// No place in the format.
    I8(i8),
    /// No place in the format.
    I16(i16),
    /// No place in the format.
    I32(i32),
    /// No place in the format.
    I64(i64),
    /// No place in the format.
    U64(u64),
    /// The bits of a single-precision number: no place in the format.
    Float(u32),
    /// The bits of a double-precision number: no place in the format.
    Double(u64),
    /// No place in the format.
    Char(char),
    /// No place in the format.
    Unit,
    /// A variant's index and content: no place in the format.
    Union(u32, Box<Value>),
}

/// The mathematical content of a [`Value`].
pub enum ValueView {
    U8(u8),
    U16(u16),
    U32(u32),
    Str(Seq<char>),
    Bytes(Seq<u8>),
    Gbk(Seq<char>, usize),
    Optional(Option<Box<ValueView>>),
    Newtype(Box<ValueView>),
    Tuple(Seq<ValueView>),
    Struct(Seq<ValueView>),
    Array(Seq<ValueView>),
    Bool(bool),
    I8(i8),
    I16(i16),
    I32(i32),
    I64(i64),
    U64(u64),
    Float(u32),
    Double(u64),
    Char(char),
    Unit,
    Union(u32, Box<ValueView>),
}

/// The content of a value.
pub open spec fn content(value: Value) -> ValueView
    decreases value,
{
    match value {
        Value::U8(v) => ValueView::U8(v),
        Value::U16(v) => ValueView::U16(v),
        Value::U32(v) => ValueView::U32(v),
        Value::Str(text) => ValueView::Str(text@),
        Value::Bytes(block) => ValueView::Bytes(block@),
        Value::Gbk(text, width) => ValueView::Gbk(text@, width),
        Value::Optional(None) => ValueView::Optional(None),
        Value::Optional(Some(inner)) => ValueView::Optional(Some(Box::new(content(*inner)))),
        Value::Newtype(inner) => ValueView::Newtype(Box::new(content(*inner))),
        Value::Tuple(items) => ValueView::Tuple(
            Seq::new(
                items@.len(),
                |i: int|
                    if 0 <= i < items@.len() {
                        content(items@[i])
                    } else {
                        ValueView::Unit
                    },
            ),
        ),
        Value::Struct(items) => ValueView::Struct(
            Seq::new(
                items@.len(),
                |i: int|
                    if 0 <= i < items@.len() {
                        content(items@[i])
                    } else {
                        ValueView::Unit
                    },
            ),
        ),
        Value::Array(items) => ValueView::Array(
            Seq::new(
                items@.len(),
                |i: int|
                    if 0 <= i < items@.len() {
                        content(items@[i])
                    } else {
                        ValueView::Unit
                    },
            ),
        ),
        Value::Bool(v) => ValueView::Bool(v),
        Value::I8(v) => ValueView::I8(v),
        Value::I16(v) => ValueView::I16(v),
        Value::I32(v) => ValueView::I32(v),
        Value::I64(v) => ValueView::I64(v),
        Value::U64(v) => ValueView::U64(v),
        Value::Float(bits) => ValueView::Float(bits),
        Value::Double(bits) => ValueView::Double(bits),
        Value::Char(v) => ValueView::Char(v),
        Value::Unit => ValueView::Unit,
        Value::Union(index, inner) => ValueView::Union(index, Box::new(content(*inner))),
    }
}

impl View for Value {
    type V = ValueView;

    open spec fn view(&self) -> ValueView {
        content(*self)
    }
}

/// The contents of each of `items`, in order.
pub open spec fn views(items: Seq<Value>) -> Seq<ValueView> {
    Seq::new(items.len(), |i: int| items[i]@)
}

/// The three sequence variants view their items one by one.
pub proof fn lemma_view_of_items(items: Vec<Value>)
    ensures
        Value::Tuple(items)@ == ValueView::Tuple(views(items@)),
        Value::Struct(items)@ == ValueView::Struct(views(items@)),
        Value::Array(items)@ == ValueView::Array(views(items@)),
{
    assert(Value::Tuple(items)@ matches ValueView::Tuple(s) && s =~= views(items@));
    assert(Value::Struct(items)@ matches ValueView::Struct(s) && s =~= views(items@));
    assert(Value::Array(items)@ matches ValueView::Array(s) && s =~= views(items@));
}

} // verus!
