//! The reference encoding: the value that stands for a decoded value of a
//! given type. Decoding is held against it.

use vstd::prelude::*;
use crate::decoded::{DecodedView, MapKeyView, Number};
use crate::model::{key_names, keys_of, variant_names};
use crate::parse_type::{DerivedTypeData, NamedFields, VariantData};
use crate::shape::{KeyShape, Shape};
use crate::value::ValueView;

verus! {

/// The character of a decimal digit.
pub open spec fn digit_char(d: nat) -> char {
    ((48 + d) as u8) as char
}

/// The decimal text of a number, without sign or leading zeros.
pub open spec fn decimal(n: nat) -> Seq<char>
    decreases n,
{
    if n < 10 {
        seq![digit_char(n)]
    } else {
        decimal(n / 10).push(digit_char(n % 10))
    }
}

/// The text of a key.
pub open spec fn key_text(key: MapKeyView) -> Seq<char> {
    match key {
        MapKeyView::String(s) => s,
        MapKeyView::Unsigned(n) => decimal(n as nat),
        MapKeyView::Signed(n) => if n < 0 {
            seq!['-'] + decimal((-n) as nat)
        } else {
            decimal(n as nat)
        },
    }
}

/// Whether a key is one of the given type.
pub open spec fn key_conforms(shape: KeyShape, key: MapKeyView) -> bool {
    match shape {
        KeyShape::String => key is String,
        KeyShape::Unsigned(width) => key matches MapKeyView::Unsigned(n) && n
            <= width.unsigned_limit(),
        KeyShape::Signed(width) => key matches MapKeyView::Signed(n) && width.signed_floor() <= n
            <= width.signed_limit(),
    }
}

/// The encoding of `d` as a value of type `shape`.
pub open spec fn encoded(shape: Shape, d: DecodedView) -> ValueView
    decreases shape, 0nat,
{
    match shape {
        Shape::Unit => ValueView::Null,
        Shape::Bool => match d {
            DecodedView::Bool(b) => ValueView::Boolean(b),
            _ => ValueView::Null,
        },
        Shape::Unsigned(_) => match d {
            DecodedView::Unsigned(n) => ValueView::Integer(n),
            _ => ValueView::Null,
        },
        Shape::Signed(_) => match d {
            DecodedView::Signed(n) => if n >= 0 {
                ValueView::Integer(n as u64)
            } else {
                ValueView::NegativeInteger(n)
            },
            _ => ValueView::Null,
        },
        Shape::Float => match d {
            DecodedView::Float(Number::Integer(n)) => ValueView::Integer(n),
            DecodedView::Float(Number::NegativeInteger(n)) => ValueView::NegativeInteger(n),
            DecodedView::Float(Number::Float(bits)) => ValueView::Float(bits),
            _ => ValueView::Null,
        },
        Shape::String => match d {
            DecodedView::String(s) => ValueView::String(s),
            _ => ValueView::Null,
        },
        Shape::Optional(inner) => match d {
            DecodedView::Optional(Some(x)) => encoded(*inner, *x),
            _ => ValueView::Null,
        },
        Shape::Boxed(inner) => match d {
            DecodedView::Boxed(x) => encoded(*inner, *x),
            _ => ValueView::Null,
        },
        Shape::Sequence(inner) => match d {
            DecodedView::Sequence(ds) => ValueView::Sequence(encoded_items(*inner, ds)),
            _ => ValueView::Null,
        },
        Shape::Mapping(_, inner) => match d {
            DecodedView::Mapping(es) => ValueView::Mapping(encoded_entries(*inner, es)),
            _ => ValueView::Null,
        },
        Shape::Tuple(shapes) => match d {
            DecodedView::Tuple(ds) => ValueView::Sequence(encoded_tuple(shapes, ds)),
            _ => ValueView::Null,
        },
        Shape::Derived(info) => match info.data {
            DerivedTypeData::Struct(fields) => match d {
                DecodedView::Struct(ds) => ValueView::Mapping(encoded_fields(fields, ds)),
                _ => ValueView::Null,
            },
            DerivedTypeData::Enum { tag, variants } => match d {
                DecodedView::Variant(v, ds) => if v < variants.len() {
                    ValueView::Mapping(
                        seq![(tag@, ValueView::String(variants[v as int].key_name@))] + (
                        match variants[v as int].data {
                            VariantData::Unit => Seq::empty(),
                            VariantData::Named(fields) => encoded_fields(fields, ds),
                        }),
                    )
                } else {
                    ValueView::Null
                },
                _ => ValueView::Null,
            },
        },
    }
}

/// The encodings of the items of a sequence.
pub open spec fn encoded_items(inner: Shape, ds: Seq<DecodedView>) -> Seq<ValueView>
    decreases inner, 1nat,
{
    Seq::new(ds.len(), |i: int| encoded(inner, ds[i]))
}

/// The encodings of the entries of a mapping.
pub open spec fn encoded_entries(inner: Shape, es: Seq<(MapKeyView, DecodedView)>) -> Seq<
    (Seq<char>, ValueView),
>
    decreases inner, 1nat,
{
    Seq::new(es.len(), |i: int| (key_text(es[i].0), encoded(inner, es[i].1)))
}

/// The encodings of the items of a tuple.
pub open spec fn encoded_tuple(shapes: Vec<Shape>, ds: Seq<DecodedView>) -> Seq<ValueView>
    decreases shapes, 0nat,
{
    Seq::new(
        ds.len(),
        |i: int|
            if 0 <= i < shapes.len() {
                encoded(shapes[i], ds[i])
            } else {
                ValueView::Null
            },
    )
}

/// The entries that hold the fields, each under its key, in the order of
/// their declaration.
pub open spec fn encoded_fields(fields: NamedFields, ds: Seq<DecodedView>) -> Seq<
    (Seq<char>, ValueView),
>
    decreases fields, 0nat,
{
    Seq::new(
        ds.len(),
        |j: int|
            if 0 <= j < fields.fields.len() {
                (fields.fields[j].key_name@, encoded(fields.fields[j].field_ty, ds[j]))
            } else {
                (Seq::empty(), ValueView::Null)
            },
    )
}

/// Whether `d` is a value of type `shape` that its encoding tells apart
/// from every other: an optional value that is there is not encoded as
/// null, the keys of a mapping differ from one another, and so do the keys
/// of the fields of a struct and the tags of the variants up to the one
/// chosen.
pub open spec fn conforms(shape: Shape, d: DecodedView) -> bool
    decreases shape, 0nat,
{
    match shape {
        Shape::Unit => d is Unit,
        Shape::Bool => d is Bool,
        Shape::Unsigned(width) => d matches DecodedView::Unsigned(n) && n <= width.unsigned_limit(),
        Shape::Signed(width) => d matches DecodedView::Signed(n) && width.signed_floor() <= n
            <= width.signed_limit(),
        Shape::Float => d is Float,
        Shape::String => d is String,
        Shape::Optional(inner) => match d {
            DecodedView::Optional(None) => true,
            DecodedView::Optional(Some(x)) => conforms(*inner, *x) && !(encoded(*inner, *x) is Null),
            _ => false,
        },
        Shape::Boxed(inner) => match d {
            DecodedView::Boxed(x) => conforms(*inner, *x),
            _ => false,
        },
        Shape::Sequence(inner) => match d {
            DecodedView::Sequence(ds) => items_conform(*inner, ds),
            _ => false,
        },
        Shape::Mapping(key, inner) => match d {
            DecodedView::Mapping(es) => entries_conform(key, *inner, es),
            _ => false,
        },
        Shape::Tuple(shapes) => match d {
            DecodedView::Tuple(ds) => tuple_conforms(shapes, ds),
            _ => false,
        },
        Shape::Derived(info) => match info.data {
            DerivedTypeData::Struct(fields) => match d {
                DecodedView::Struct(ds) => fields_conform(fields, ds),
                _ => false,
            },
            DerivedTypeData::Enum { tag, variants } => match d {
                DecodedView::Variant(v, ds) => {
                    &&& v < variants.len()
                    &&& variant_names(variants).index_of_first(variants[v as int].key_name@)
                        == Some(v as int)
                    &&& match variants[v as int].data {
                        VariantData::Unit => ds.len() == 0,
                        VariantData::Named(fields) => fields_conform(fields, ds),
                    }
                },
                _ => false,
            },
        },
    }
}

/// Whether every item conforms to `inner`.
pub open spec fn items_conform(inner: Shape, ds: Seq<DecodedView>) -> bool
    decreases inner, 1nat,
{
    forall|i: int| 0 <= i < ds.len() ==> conforms(inner, #[trigger] ds[i])
}

/// Whether the keys are of type `key` and differ from one another, and
/// every value conforms to `inner`.
pub open spec fn entries_conform(
    key: KeyShape,
    inner: Shape,
    es: Seq<(MapKeyView, DecodedView)>,
) -> bool
    decreases inner, 1nat,
{
    &&& keys_of(es).no_duplicates()
    &&& forall|i: int|
        0 <= i < es.len() ==> key_conforms(key, (#[trigger] es[i]).0) && conforms(inner, es[i].1)
}

/// Whether there is one item for each shape, and it conforms to it.
pub open spec fn tuple_conforms(shapes: Vec<Shape>, ds: Seq<DecodedView>) -> bool
    decreases shapes, 0nat,
{
    &&& ds.len() == shapes.len()
    &&& forall|i: int| 0 <= i < shapes.len() ==> conforms(shapes[i], #[trigger] ds[i])
}

/// Whether there is one value for each field, and it conforms to the
/// field's type; and the keys of the fields differ from one another.
pub open spec fn fields_conform(fields: NamedFields, ds: Seq<DecodedView>) -> bool
    decreases fields, 0nat,
{
    &&& ds.len() == fields.fields.len()
    &&& key_names(fields).no_duplicates()
    &&& forall|j: int|
        0 <= j < fields.fields.len() ==> conforms(fields.fields[j].field_ty, #[trigger] ds[j])
}

} // verus!
