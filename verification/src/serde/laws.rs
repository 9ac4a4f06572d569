//! What holds of reading and writing values, whatever the value.

use vstd::prelude::*;

use crate::serde::de::{
    items_decoding, option_decoding, repeat_decoding, value_decoding,
};
use crate::serde::error::Error;
use crate::serde::gbk::{
    gbk_encoding, gbk_faithful, lemma_first_nul, lemma_fixed_round_trip, text_survives,
};
use crate::serde::ser::{
    items_encoding, lemma_items_encoding_error_stays, lemma_u16_round_trip, lemma_u32_round_trip,
    value_encoding,
};
use crate::serde::value::{Shape, ValueView};

verus! {

/// `value` is what a reader that is asked for `shape` can give: of the same
/// kind, part for part, with widths and counts as the shape says.
pub open spec fn has_shape(value: ValueView, shape: Shape) -> bool
    decreases shape,
{
    match shape {
        Shape::U8 => value is U8,
        Shape::U16 => value is U16,
        Shape::U32 => value is U32,
        Shape::Str => value is Str,
        Shape::Bytes(width) => value matches ValueView::Bytes(block) && block.len() == width,
        Shape::Gbk(width) => value matches ValueView::Gbk(_, w) && w == width,
        Shape::Optional(inner) => value matches ValueView::Optional(content) && (
        content matches Some(v) ==> has_shape(*v, *inner)),
        Shape::Newtype(inner) => value matches ValueView::Newtype(v) && has_shape(*v, *inner),
        Shape::Tuple(shapes) => value matches ValueView::Tuple(items) && items.len()
            == shapes@.len() && forall|i: int|
            0 <= i < shapes@.len() ==> has_shape(#[trigger] items[i], shapes@[i]),
        Shape::Struct(shapes) => value matches ValueView::Struct(items) && items.len()
            == shapes@.len() && forall|i: int|
            0 <= i < shapes@.len() ==> has_shape(#[trigger] items[i], shapes@[i]),
        Shape::Array(element, count) => value matches ValueView::Array(items) && items.len()
            == count && forall|i: int|
            0 <= i < items.len() ==> has_shape(#[trigger] items[i], *element),
        _ => false,
    }
}

/// GBK is faithful to every text in the value.
pub open spec fn faithful(value: ValueView) -> bool
    decreases value,
{
    match value {
        ValueView::Str(text) => gbk_faithful(text),
        ValueView::Gbk(text, _) => gbk_faithful(text),
        ValueView::Optional(Some(v)) => faithful(*v),
        ValueView::Newtype(v) => faithful(*v),
        ValueView::Tuple(items) => forall|i: int|
            0 <= i < items.len() ==> faithful(#[trigger] items[i]),
        ValueView::Struct(items) => forall|i: int|
            0 <= i < items.len() ==> faithful(#[trigger] items[i]),
        ValueView::Array(items) => forall|i: int|
            0 <= i < items.len() ==> faithful(#[trigger] items[i]),
        _ => true,
    }
}

/// Reading what was written gives the value back: the bytes of a value
/// that has the shape asked for, and to whose texts GBK is faithful, are
/// read as that value, whatever follows them, and no byte more is consumed.
pub proof fn lemma_value_round_trip(value: ValueView, shape: Shape, rest: Seq<u8>)
    requires
        has_shape(value, shape),
        faithful(value),
        value_encoding(value) is Ok,
    ensures
        value_decoding(shape, value_encoding(value)->Ok_0 + rest) == Ok::<(ValueView, nat), Error>(
            (value, value_encoding(value)->Ok_0.len()),
        ),
    decreases shape, 0nat,
{
    let bytes = value_encoding(value)->Ok_0;
    let s = bytes + rest;
    match shape {
        Shape::U8 => {},
        Shape::U16 => {
            lemma_u16_round_trip(value->U16_0, 0, 0);
        },
        Shape::U32 => {
            lemma_u32_round_trip(value->U32_0, 0, 0, 0, 0);
        },
        Shape::Str => {
            let text = value->Str_0;
            let gbk = gbk_encoding(text)->Some_0;
            lemma_first_nul(s, gbk.len() as int);
            assert(s.take(gbk.len() as int) =~= gbk);
        },
        Shape::Bytes(width) => {
            assert(s.take(width as int) =~= bytes);
        },
        Shape::Gbk(width) => {
            lemma_fixed_round_trip(value->Gbk_0, width as nat);
            assert(text_survives(value->Gbk_0, width as nat));
            assert(s.take(width as int) =~= bytes);
        },
        Shape::Optional(inner) => {
            match value->Optional_0 {
                None => {},
                Some(v) => {
                    let content = value_encoding(*v)->Ok_0;
                    assert(s.skip(1) =~= content + rest);
                    lemma_value_round_trip(*v, *inner, rest);
                    assert(option_decoding(*inner, s) == Ok::<(Option<ValueView>, nat), Error>(
                        (Some(*v), bytes.len()),
                    ));
                },
            }
        },
        Shape::Newtype(inner) => {
            lemma_value_round_trip(*value->Newtype_0, *inner, rest);
        },
        Shape::Tuple(shapes) => {
            let items = value->Tuple_0;
            lemma_items_round_trip(items, shapes@, items.len(), rest);
            assert(items.take(items.len() as int) =~= items);
        },
        Shape::Struct(shapes) => {
            let items = value->Struct_0;
            lemma_items_round_trip(items, shapes@, items.len(), rest);
            assert(items.take(items.len() as int) =~= items);
        },
        Shape::Array(element, count) => {
            let items = value->Array_0;
            lemma_repeat_round_trip(items, *element, items.len(), rest);
            assert(items.take(items.len() as int) =~= items);
        },
        _ => {},
    }
}

/// The first `k` items are read back from their bytes, whatever follows.
pub proof fn lemma_items_round_trip(
    items: Seq<ValueView>,
    shapes: Seq<Shape>,
    k: nat,
    rest: Seq<u8>,
)
    requires
        items.len() == shapes.len(),
        k <= items.len(),
        forall|i: int| 0 <= i < shapes.len() ==> has_shape(#[trigger] items[i], shapes[i]),
        forall|i: int| 0 <= i < items.len() ==> faithful(#[trigger] items[i]),
        items_encoding(items, items.len()) is Ok,
    ensures
        items_encoding(items, k) is Ok,
        items_decoding(shapes, k, items_encoding(items, k)->Ok_0 + rest) == Ok::<
            (Seq<ValueView>, nat),
            Error,
        >((items.take(k as int), items_encoding(items, k)->Ok_0.len())),
    decreases shapes, k,
{
    if items_encoding(items, k) is Err {
        lemma_items_encoding_error_stays(items, k, items.len());
    }
    if k == 0 {
        assert(items.take(0) =~= Seq::<ValueView>::empty());
    } else {
        let j = (k - 1) as nat;
        if items_encoding(items, j) is Err {
            lemma_items_encoding_error_stays(items, j, items.len());
        }
        let head = items_encoding(items, j)->Ok_0;
        let item = value_encoding(items[j as int])->Ok_0;
        let s = items_encoding(items, k)->Ok_0 + rest;
        assert(s =~= head + (item + rest));
        lemma_items_round_trip(items, shapes, j, item + rest);
        assert(s.skip(head.len() as int) =~= item + rest);
        lemma_value_round_trip(items[j as int], shapes[j as int], rest);
        assert(items.take(j as int).push(items[j as int]) =~= items.take(k as int));
    }
}

/// The first `k` elements are read back from their bytes, whatever
/// follows.
pub proof fn lemma_repeat_round_trip(
    items: Seq<ValueView>,
    element: Shape,
    k: nat,
    rest: Seq<u8>,
)
    requires
        k <= items.len(),
        forall|i: int| 0 <= i < items.len() ==> has_shape(#[trigger] items[i], element),
        forall|i: int| 0 <= i < items.len() ==> faithful(#[trigger] items[i]),
        items_encoding(items, items.len()) is Ok,
    ensures
        items_encoding(items, k) is Ok,
        repeat_decoding(element, k, items_encoding(items, k)->Ok_0 + rest) == Ok::<
            (Seq<ValueView>, nat),
            Error,
        >((items.take(k as int), items_encoding(items, k)->Ok_0.len())),
    decreases element, k + 1,
{
    if items_encoding(items, k) is Err {
        lemma_items_encoding_error_stays(items, k, items.len());
    }
    if k == 0 {
        assert(items.take(0) =~= Seq::<ValueView>::empty());
    } else {
        let j = (k - 1) as nat;
        if items_encoding(items, j) is Err {
            lemma_items_encoding_error_stays(items, j, items.len());
        }
        let head = items_encoding(items, j)->Ok_0;
        let item = value_encoding(items[j as int])->Ok_0;
        let s = items_encoding(items, k)->Ok_0 + rest;
        assert(s =~= head + (item + rest));
        lemma_repeat_round_trip(items, element, j, item + rest);
        assert(s.skip(head.len() as int) =~= item + rest);
        lemma_value_round_trip(items[j as int], element, rest);
        assert(items.take(j as int).push(items[j as int]) =~= items.take(k as int));
    }
}

/// What is read has the shape that was asked for, and lies within the
/// bytes it was read from: the shape alone decides how the bytes are taken.
pub proof fn lemma_decoded_has_shape(shape: Shape, s: Seq<u8>)
    requires
        value_decoding(shape, s) is Ok,
    ensures
        has_shape(value_decoding(shape, s)->Ok_0.0, shape),
        value_decoding(shape, s)->Ok_0.1 <= s.len(),
    decreases shape, 0nat,
{
    match shape {
        Shape::Str => {
            crate::serde::gbk::lemma_first_nul_bounds(s);
        },
        Shape::Optional(inner) => {
            let content = option_decoding(*inner, s);
            assert(content is Ok);
            if content->Ok_0.0 is Some {
                lemma_decoded_has_shape(*inner, s.skip(1));
            }
        },
        Shape::Newtype(inner) => {
            lemma_decoded_has_shape(*inner, s);
        },
        Shape::Tuple(shapes) => {
            lemma_decoded_items_have_shapes(shapes@, shapes@.len(), s);
        },
        Shape::Struct(shapes) => {
            lemma_decoded_items_have_shapes(shapes@, shapes@.len(), s);
        },
        Shape::Array(element, count) => {
            lemma_decoded_elements_have_shape(*element, count as nat, s);
        },
        _ => {},
    }
}

/// Each of the first `k` items that are read has its shape.
pub proof fn lemma_decoded_items_have_shapes(shapes: Seq<Shape>, k: nat, s: Seq<u8>)
    requires
        k <= shapes.len(),
        items_decoding(shapes, k, s) is Ok,
    ensures
        items_decoding(shapes, k, s)->Ok_0.0.len() == k,
        items_decoding(shapes, k, s)->Ok_0.1 <= s.len(),
        forall|i: int|
            0 <= i < k ==> has_shape(#[trigger] items_decoding(shapes, k, s)->Ok_0.0[i], shapes[i]),
    decreases shapes, k,
{
    if k > 0 {
        let j = (k - 1) as nat;
        lemma_decoded_items_have_shapes(shapes, j, s);
        let (head, n) = items_decoding(shapes, j, s)->Ok_0;
        lemma_decoded_has_shape(shapes[j as int], s.skip(n as int));
    }
}

/// Each of the first `k` elements that are read has the shape of an
/// element.
pub proof fn lemma_decoded_elements_have_shape(element: Shape, k: nat, s: Seq<u8>)
    requires
        repeat_decoding(element, k, s) is Ok,
    ensures
        repeat_decoding(element, k, s)->Ok_0.0.len() == k,
        repeat_decoding(element, k, s)->Ok_0.1 <= s.len(),
        forall|i: int|
            0 <= i < k ==> has_shape(#[trigger] repeat_decoding(element, k, s)->Ok_0.0[i], element),
    decreases element, k + 1,
{
    if k > 0 {
        let j = (k - 1) as nat;
        lemma_decoded_elements_have_shape(element, j, s);
        let (head, n) = repeat_decoding(element, j, s)->Ok_0;
        lemma_decoded_has_shape(element, s.skip(n as int));
    }
}

} // verus!
