//! What decoding means: the result of every decode as a function of the
//! shape, the value and the location, for any error type.

use vstd::prelude::*;
use crate::attribute_parser::{DenyUnknownFields, JaysonDefaultFieldAttribute};
use crate::decoded::{DecodedView, MapKeyView, Number};
use crate::error::{CustomError, DeserializeError, MergeWithError};
use crate::field_state::FieldState;
use crate::location::Step;
use crate::parse_type::{DerivedTypeData, Field, NamedFields, Variant, VariantData};
use crate::shape::{KeyShape, Shape};
use crate::value::{ValueKind, ValueView};

verus! {

/// The error of a verdict, whichever way the verdict went.
pub open spec fn settle<M>(verdict: Result<M, M>) -> M {
    match verdict {
        Ok(e) => e,
        Err(e) => e,
    }
}

/// The error for a value whose kind is none of the accepted ones.
pub open spec fn mismatch<E: DeserializeError>(
    value: ValueView,
    accepted: Seq<ValueKind>,
    location: Seq<Step>,
) -> E::Model {
    settle(E::on_incorrect_value_kind(None, value.kind(), accepted, location))
}

/// The error for a problem that has no constructor of its own.
pub open spec fn unexpected<E: DeserializeError>(msg: Seq<char>, location: Seq<Step>) -> E::Model {
    settle(E::on_unexpected(None, msg, location))
}

/// The value of a decimal digit.
pub open spec fn digit_value(c: char) -> nat {
    (c as nat - '0' as nat) as nat
}

/// Whether a character is a decimal digit.
pub open spec fn is_digit(c: char) -> bool {
    '0' <= c <= '9'
}

/// Whether every character is a decimal digit.
pub open spec fn all_digits(text: Seq<char>) -> bool {
    forall|i: int| 0 <= i < text.len() ==> is_digit(#[trigger] text[i])
}

/// The number that a run of decimal digits denotes.
pub open spec fn digits_value(digits: Seq<char>) -> nat
    decreases digits.len(),
{
    if digits.len() == 0 {
        0
    } else {
        digits_value(digits.drop_last()) * 10 + digit_value(digits.last())
    }
}

/// The number that a text denotes: an optional plus sign, then one decimal
/// digit or more, and nothing else.
pub open spec fn parsed_unsigned(text: Seq<char>) -> Option<nat> {
    let digits = if text.len() > 0 && text[0] == '+' {
        text.drop_first()
    } else {
        text
    };
    if digits.len() > 0 && all_digits(digits) {
        Some(digits_value(digits))
    } else {
        None
    }
}

/// The number that a text denotes: an optional sign, then one decimal digit
/// or more, and nothing else.
pub open spec fn parsed_signed(text: Seq<char>) -> Option<int> {
    if text.len() > 0 && text[0] == '-' {
        let digits = text.drop_first();
        if digits.len() > 0 && all_digits(digits) {
            Some(-(digits_value(digits) as int))
        } else {
            None
        }
    } else {
        match parsed_unsigned(text) {
            Some(n) => Some(n as int),
            None => None,
        }
    }
}

impl KeyShape {
    /// The key that the text of a key denotes, if it denotes one.
    pub open spec fn parsed(self, text: Seq<char>) -> Option<MapKeyView> {
        match self {
            KeyShape::String => Some(MapKeyView::String(text)),
            KeyShape::Unsigned(width) => match parsed_unsigned(text) {
                Some(n) => if n <= width.unsigned_limit() {
                    Some(MapKeyView::Unsigned(n as u64))
                } else {
                    None
                },
                None => None,
            },
            KeyShape::Signed(width) => match parsed_signed(text) {
                Some(n) => if width.signed_floor() <= n <= width.signed_limit() {
                    Some(MapKeyView::Signed(n as i64))
                } else {
                    None
                },
                None => None,
            },
        }
    }
}

/// The keys of entries, in order.
pub open spec fn keys_of<K, V>(entries: Seq<(K, V)>) -> Seq<K> {
    Seq::new(entries.len(), |i: int| entries[i].0)
}

/// The entries with `value` under `key`: in place of the entry that had the
/// key, or at the end.
pub open spec fn upsert(
    entries: Seq<(MapKeyView, DecodedView)>,
    key: MapKeyView,
    value: DecodedView,
) -> Seq<(MapKeyView, DecodedView)> {
    match keys_of(entries).index_of_first(key) {
        Some(i) => entries.update(i, (key, value)),
        None => entries.push((key, value)),
    }
}

/// The keys under which the input holds the fields, in order.
pub open spec fn key_names(fields: NamedFields) -> Seq<Seq<char>> {
    Seq::new(fields.fields.len() as nat, |j: int| fields.fields[j].key_name@)
}

/// The texts of the tags that select the variants, in order.
pub open spec fn variant_names(variants: Vec<Variant>) -> Seq<Seq<char>> {
    Seq::new(variants.len() as nat, |v: int| variants[v].key_name@)
}

/// The standard default of a type, where the description knows one.
pub open spec fn standard_default(shape: Shape) -> Option<DecodedView>
    decreases shape,
{
    match shape {
        Shape::Unit => Some(DecodedView::Unit),
        Shape::Bool => Some(DecodedView::Bool(false)),
        Shape::Unsigned(_) => Some(DecodedView::Unsigned(0)),
        Shape::Signed(_) => Some(DecodedView::Signed(0)),
        Shape::Float => Some(DecodedView::Float(Number::Float(0))),
        Shape::String => Some(DecodedView::String(Seq::empty())),
        Shape::Optional(_) => Some(DecodedView::Optional(None)),
        Shape::Boxed(inner) => match standard_default(*inner) {
            Some(d) => Some(DecodedView::Boxed(Box::new(d))),
            None => None,
        },
        Shape::Sequence(_) => Some(DecodedView::Sequence(Seq::empty())),
        Shape::Mapping(_, _) => Some(DecodedView::Mapping(Seq::empty())),
        Shape::Tuple(_) => None,
        Shape::Derived(_) => None,
    }
}

/// The value that a field takes when the input lacks it, if it takes one.
pub open spec fn field_default(field: Field) -> Option<DecodedView> {
    match field.field_default {
        None => field.field_ty.absent(),
        Some(JaysonDefaultFieldAttribute::DefaultTrait) => standard_default(field.field_ty),
        Some(JaysonDefaultFieldAttribute::Function(value)) => Some(value@),
    }
}

/// How far the decoding of a struct has come: the state of each field, and
/// the error accumulated so far.
pub struct Progress<M> {
    pub slots: Seq<FieldState<DecodedView>>,
    pub error: Option<M>,
}

/// The progress once `verdict` has been given on a new problem: the error
/// recorded, or the decode stopped.
pub open spec fn recorded<M>(progress: Progress<M>, verdict: Result<M, M>) -> Result<
    Progress<M>,
    M,
> {
    match verdict {
        Ok(e) => Ok(Progress { slots: progress.slots, error: Some(e) }),
        Err(e) => Err(e),
    }
}

/// The result of decoding `value`, found at `location`, as `shape`.
pub open spec fn decoded<E: DeserializeError>(
    shape: Shape,
    value: ValueView,
    location: Seq<Step>,
) -> Result<DecodedView, E::Model>
    decreases shape, 0nat,
{
    match shape {
        Shape::Unit => match value {
            ValueView::Null => Ok(DecodedView::Unit),
            _ => Err(mismatch::<E>(value, seq![ValueKind::Null], location)),
        },
        Shape::Bool => match value {
            ValueView::Boolean(b) => Ok(DecodedView::Bool(b)),
            _ => Err(mismatch::<E>(value, seq![ValueKind::Boolean], location)),
        },
        Shape::Unsigned(width) => match value {
            ValueView::Integer(n) => if n <= width.unsigned_limit() {
                Ok(DecodedView::Unsigned(n))
            } else {
                Err(unexpected::<E>("value out of range"@, location))
            },
            _ => Err(mismatch::<E>(value, seq![ValueKind::Integer], location)),
        },
        Shape::Signed(width) => match value {
            ValueView::Integer(n) => if n <= width.signed_limit() {
                Ok(DecodedView::Signed(n as i64))
            } else {
                Err(unexpected::<E>("value out of range"@, location))
            },
            ValueView::NegativeInteger(n) => if width.signed_floor() <= n <= width.signed_limit() {
                Ok(DecodedView::Signed(n))
            } else {
                Err(unexpected::<E>("value out of range"@, location))
            },
            _ => Err(
                mismatch::<E>(
                    value,
                    seq![ValueKind::Integer, ValueKind::NegativeInteger],
                    location,
                ),
            ),
        },
        Shape::Float => match value {
            ValueView::Integer(n) => Ok(DecodedView::Float(Number::Integer(n))),
            ValueView::NegativeInteger(n) => Ok(DecodedView::Float(Number::NegativeInteger(n))),
            ValueView::Float(bits) => Ok(DecodedView::Float(Number::Float(bits))),
            _ => Err(
                mismatch::<E>(
                    value,
                    seq![ValueKind::Float, ValueKind::Integer, ValueKind::NegativeInteger],
                    location,
                ),
            ),
        },
        Shape::String => match value {
            ValueView::String(s) => Ok(DecodedView::String(s)),
            _ => Err(mismatch::<E>(value, seq![ValueKind::String], location)),
        },
        Shape::Optional(inner) => match value {
            ValueView::Null => Ok(DecodedView::Optional(None)),
            _ => match decoded::<E>(*inner, value, location) {
                Ok(d) => Ok(DecodedView::Optional(Some(Box::new(d)))),
                Err(e) => Err(e),
            },
        },
        Shape::Boxed(inner) => match decoded::<E>(*inner, value, location) {
            Ok(d) => Ok(DecodedView::Boxed(Box::new(d))),
            Err(e) => Err(e),
        },
        Shape::Sequence(inner) => match value {
            ValueView::Sequence(items) => match decoded_items::<E>(
                *inner,
                items,
                location,
                items.len(),
            ) {
                Ok(ds) => Ok(DecodedView::Sequence(ds)),
                Err(e) => Err(e),
            },
            _ => Err(mismatch::<E>(value, seq![ValueKind::Sequence], location)),
        },
        Shape::Mapping(key, inner) => match value {
            ValueView::Mapping(entries) => match decoded_entries::<E>(
                key,
                *inner,
                entries,
                location,
                entries.len(),
            ) {
                Ok(ds) => Ok(DecodedView::Mapping(ds)),
                Err(e) => Err(e),
            },
            _ => Err(mismatch::<E>(value, seq![ValueKind::Mapping], location)),
        },
        Shape::Tuple(shapes) => match value {
            ValueView::Sequence(items) => match decoded_whole_tuple::<E>(shapes, items, location) {
                Ok(ds) => Ok(DecodedView::Tuple(ds)),
                Err(e) => Err(e),
            },
            _ => Err(mismatch::<E>(value, seq![ValueKind::Sequence], location)),
        },
        Shape::Derived(info) => match value {
            ValueView::Mapping(entries) => match info.data {
                DerivedTypeData::Struct(fields) => match decoded_fields::<E>(
                    fields,
                    info.common.unknown_key,
                    entries,
                    location,
                ) {
                    Ok(ds) => Ok(DecodedView::Struct(ds)),
                    Err(e) => Err(e),
                },
                DerivedTypeData::Enum { tag, variants } => decoded_enum::<E>(
                    tag@,
                    variants,
                    info.common.unknown_key,
                    entries,
                    location,
                ),
            },
            _ => Err(mismatch::<E>(value, seq![ValueKind::Mapping], location)),
        },
    }
}

/// The result of decoding the first `n` items of a sequence, each as
/// `inner`: all of them decoded, or the error of the first that fails.
pub open spec fn decoded_items<E: DeserializeError>(
    inner: Shape,
    items: Seq<ValueView>,
    location: Seq<Step>,
    n: nat,
) -> Result<Seq<DecodedView>, E::Model>
    decreases inner, n,
{
    if n == 0 {
        Ok(Seq::empty())
    } else {
        match decoded_items::<E>(inner, items, location, (n - 1) as nat) {
            Err(e) => Err(e),
            Ok(done) => match decoded::<E>(
                inner,
                items[n - 1],
                location.push(Step::Index((n - 1) as nat)),
            ) {
                Ok(d) => Ok(done.push(d)),
                Err(e) => Err(e),
            },
        }
    }
}

/// The result of decoding the items of a sequence as a tuple: an
/// unexpected problem unless there are as many items as shapes.
pub open spec fn decoded_whole_tuple<E: DeserializeError>(
    shapes: Vec<Shape>,
    items: Seq<ValueView>,
    location: Seq<Step>,
) -> Result<Seq<DecodedView>, E::Model>
    decreases shapes, items.len() + 1,
{
    if items.len() != shapes.len() {
        Err(unexpected::<E>("invalid sequence length"@, location))
    } else {
        decoded_tuple::<E>(shapes, items, location, items.len())
    }
}

/// The result of decoding the first `n` items of a sequence, each as the
/// shape at its own index.
pub open spec fn decoded_tuple<E: DeserializeError>(
    shapes: Vec<Shape>,
    items: Seq<ValueView>,
    location: Seq<Step>,
    n: nat,
) -> Result<Seq<DecodedView>, E::Model>
    decreases shapes, n,
{
    if n == 0 || n > shapes.len() {
        Ok(Seq::empty())
    } else {
        match decoded_tuple::<E>(shapes, items, location, (n - 1) as nat) {
            Err(e) => Err(e),
            Ok(done) => match decoded::<E>(
                shapes[n - 1],
                items[n - 1],
                location.push(Step::Index((n - 1) as nat)),
            ) {
                Ok(d) => Ok(done.push(d)),
                Err(e) => Err(e),
            },
        }
    }
}

/// The result of decoding the first `n` entries of a mapping: the key of
/// each parsed as `key`, its value decoded as `inner`, a later entry taking
/// the place of an earlier one with the same key. The first key that does
/// not parse, or the first value that fails, ends it.
pub open spec fn decoded_entries<E: DeserializeError>(
    key: KeyShape,
    inner: Shape,
    entries: Seq<(Seq<char>, ValueView)>,
    location: Seq<Step>,
    n: nat,
) -> Result<Seq<(MapKeyView, DecodedView)>, E::Model>
    decreases inner, n,
{
    if n == 0 {
        Ok(Seq::empty())
    } else {
        match decoded_entries::<E>(key, inner, entries, location, (n - 1) as nat) {
            Err(e) => Err(e),
            Ok(done) => {
                let here = location.push(Step::Key(entries[n - 1].0));
                match key.parsed(entries[n - 1].0) {
                    None => Err(unexpected::<E>("cannot parse map key"@, here)),
                    Some(k) => match decoded::<E>(inner, entries[n - 1].1, here) {
                        Ok(d) => Ok(upsert(done, k, d)),
                        Err(e) => Err(e),
                    },
                }
            },
        }
    }
}

/// The progress after one entry of the input: its value decoded into the
/// field that its key names, or the key dealt with as one that names no
/// field.
pub open spec fn scan_step<E: DeserializeError>(
    fields: NamedFields,
    unknown_key: Option<DenyUnknownFields>,
    progress: Progress<E::Model>,
    key: Seq<char>,
    value: ValueView,
    location: Seq<Step>,
) -> Result<Progress<E::Model>, E::Model>
    decreases fields, 0nat,
{
    let here = location.push(Step::Key(key));
    match key_names(fields).index_of_first(key) {
        Some(j) => if 0 <= j < fields.fields.len() {
            match decoded::<E>(fields.fields[j].field_ty, value, here) {
                Ok(d) => Ok(
                    Progress {
                        slots: progress.slots.update(j, FieldState::Present(d)),
                        error: progress.error,
                    },
                ),
                Err(e) => recorded(
                    Progress {
                        slots: progress.slots.update(j, FieldState::Failed),
                        error: progress.error,
                    },
                    <E as MergeWithError<E>>::merged(progress.error, e, here),
                ),
            }
        } else {
            Ok(progress)
        },
        None => match unknown_key {
            None => Ok(progress),
            Some(DenyUnknownFields::DefaultError) => recorded(
                progress,
                E::on_unknown_key(progress.error, key, key_names(fields), location),
            ),
            Some(DenyUnknownFields::Function(custom)) => recorded(
                progress,
                <E as MergeWithError<CustomError>>::merged(progress.error, custom.code, here),
            ),
        },
    }
}

/// The progress after the first `n` entries of the input, or the error that
/// stopped the decode.
pub open spec fn scanned<E: DeserializeError>(
    fields: NamedFields,
    unknown_key: Option<DenyUnknownFields>,
    entries: Seq<(Seq<char>, ValueView)>,
    location: Seq<Step>,
    n: nat,
) -> Result<Progress<E::Model>, E::Model>
    decreases fields, n,
{
    if n == 0 {
        Ok(
            Progress {
                slots: Seq::new(fields.fields.len() as nat, |j: int| FieldState::Missing),
                error: None,
            },
        )
    } else {
        match scanned::<E>(fields, unknown_key, entries, location, (n - 1) as nat) {
            Err(e) => Err(e),
            Ok(progress) => scan_step::<E>(
                fields,
                unknown_key,
                progress,
                entries[n - 1].0,
                entries[n - 1].1,
                location,
            ),
        }
    }
}

/// The progress once the first `n` fields have been looked at for what the
/// input lacked: a missing field takes its default, or is reported.
pub open spec fn filled<E: DeserializeError>(
    fields: NamedFields,
    scanned: Progress<E::Model>,
    location: Seq<Step>,
    n: nat,
) -> Result<Progress<E::Model>, E::Model>
    decreases n,
{
    if n == 0 {
        Ok(scanned)
    } else {
        match filled::<E>(fields, scanned, location, (n - 1) as nat) {
            Err(e) => Err(e),
            Ok(progress) => {
                let field = fields.fields[n - 1];
                if progress.slots[n - 1] is Missing {
                    match field_default(field) {
                        Some(d) => Ok(
                            Progress {
                                slots: progress.slots.update(n - 1, FieldState::Present(d)),
                                error: progress.error,
                            },
                        ),
                        None => match field.missing_field_error {
                            None => recorded(
                                progress,
                                E::on_missing_field(progress.error, field.key_name@, location),
                            ),
                            Some(custom) => recorded(
                                progress,
                                <E as MergeWithError<CustomError>>::merged(
                                    progress.error,
                                    custom.code,
                                    location,
                                ),
                            ),
                        },
                    }
                } else {
                    Ok(progress)
                }
            },
        }
    }
}

/// The values that the fields hold.
pub open spec fn values_of(slots: Seq<FieldState<DecodedView>>) -> Seq<DecodedView> {
    Seq::new(
        slots.len(),
        |j: int|
            match slots[j] {
                FieldState::Present(d) => d,
                _ => DecodedView::Unit,
            },
    )
}

/// The result of decoding the entries of a mapping as named fields: the
/// values of the fields in the order of their declaration, or the
/// accumulated error.
pub open spec fn decoded_fields<E: DeserializeError>(
    fields: NamedFields,
    unknown_key: Option<DenyUnknownFields>,
    entries: Seq<(Seq<char>, ValueView)>,
    location: Seq<Step>,
) -> Result<Seq<DecodedView>, E::Model>
    decreases fields, entries.len() + 1,
{
    match scanned::<E>(fields, unknown_key, entries, location, entries.len()) {
        Err(e) => Err(e),
        Ok(progress) => match filled::<E>(
            fields,
            progress,
            location,
            fields.fields.len() as nat,
        ) {
            Err(e) => Err(e),
            Ok(progress) => match progress.error {
                Some(e) => Err(e),
                None => Ok(values_of(progress.slots)),
            },
        },
    }
}

/// The result of decoding the entries of a mapping as an enum whose tag
/// lies under the key `tag`: the first entry under that key is taken out,
/// and its text selects the variant that the other entries are decoded as.
pub open spec fn decoded_enum<E: DeserializeError>(
    tag: Seq<char>,
    variants: Vec<Variant>,
    unknown_key: Option<DenyUnknownFields>,
    entries: Seq<(Seq<char>, ValueView)>,
    location: Seq<Step>,
) -> Result<DecodedView, E::Model>
    decreases variants, 0nat,
{
    match keys_of(entries).index_of_first(tag) {
        None => Err(settle(E::on_missing_field(None, tag, location))),
        Some(t) => match entries[t].1 {
            ValueView::String(name) => match variant_names(variants).index_of_first(name) {
                None => Err(
                    unexpected::<E>("unexpected value for tag"@, location.push(Step::Key(tag))),
                ),
                Some(v) => if 0 <= v < variants.len() {
                    decoded_variant::<E>(
                        v as nat,
                        variants[v],
                        unknown_key,
                        entries.remove(t),
                        location,
                    )
                } else {
                    Err(unexpected::<E>("unexpected value for tag"@, location.push(Step::Key(tag))))
                },
            },
            _ => Err(unexpected::<E>("tag must be a string"@, location.push(Step::Key(tag)))),
        },
    }
}

/// The result of decoding the entries of a mapping, the tag taken out, as
/// the variant at `index`.
pub open spec fn decoded_variant<E: DeserializeError>(
    index: nat,
    variant: Variant,
    unknown_key: Option<DenyUnknownFields>,
    entries: Seq<(Seq<char>, ValueView)>,
    location: Seq<Step>,
) -> Result<DecodedView, E::Model>
    decreases variant, 0nat,
{
    match variant.data {
        VariantData::Unit => Ok(DecodedView::Variant(index, Seq::empty())),
        VariantData::Named(fields) => match decoded_fields::<E>(
            fields,
            unknown_key,
            entries,
            location,
        ) {
            Ok(ds) => Ok(DecodedView::Variant(index, ds)),
            Err(e) => Err(e),
        },
    }
}

/// What a decode returned, as contracts see it.
pub open spec fn outcome<T: View, E: DeserializeError>(r: Result<T, E>) -> Result<T::V, E::Model> {
    match r {
        Ok(value) => Ok(value@),
        Err(e) => Err(e.model()),
    }
}

} // verus!
