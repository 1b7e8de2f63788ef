//! What holds of decoding, for every shape, value and error type.

use vstd::prelude::*;
use crate::attribute_parser::DenyUnknownFields;
use crate::decoded::{Decoded, DecodedView, MapKeyView};
use crate::encoding::{
    conforms, decimal, digit_char, encoded, encoded_entries, encoded_fields, encoded_items,
    encoded_tuple, entries_conform, fields_conform, items_conform, key_conforms, key_text,
    tuple_conforms,
};
use crate::derive_struct::{lemma_fill_stays_stopped, lemma_scan_stays_stopped};
use crate::error::{DeserializeError, Error, ErrorView};
use crate::field_state::FieldState;
use crate::impls::{lemma_entries_stay_failed, lemma_first_index, lemma_no_index};
use crate::location::Step;
use crate::model::{
    all_digits, decoded, decoded_entries, decoded_enum, decoded_fields, decoded_items,
    decoded_tuple, decoded_variant, decoded_whole_tuple, digit_value, digits_value, field_default, filled, is_digit,
    key_names, settle, unexpected,
    keys_of, outcome, parsed_unsigned, scan_step, scanned, upsert, values_of, variant_names,
    Progress,
};
use crate::parse_type::{DerivedTypeData, NamedFields, Variant, VariantData};
use crate::shape::{KeyShape, Shape};
use crate::value::ValueView;

verus! {

/// The character of a digit is a digit, and has the digit's value.
pub proof fn lemma_digit_char(d: nat)
    requires
        d < 10,
    ensures
        is_digit(digit_char(d)),
        digit_value(digit_char(d)) == d,
        digit_char(d) != '+',
{
}

/// The decimal text of a number parses as that number.
pub proof fn lemma_decimal_parses(n: nat)
    ensures
        decimal(n).len() > 0,
        all_digits(decimal(n)),
        digits_value(decimal(n)) == n,
        decimal(n)[0] != '+',
        parsed_unsigned(decimal(n)) == Some(n),
    decreases n,
{
    if n < 10 {
        lemma_digit_char(n);
        assert(decimal(n).drop_last() =~= Seq::<char>::empty());
        assert(digits_value(decimal(n).drop_last()) == 0);
    } else {
        lemma_decimal_parses(n / 10);
        lemma_digit_char(n % 10);
        assert(decimal(n).drop_last() =~= decimal(n / 10));
    }
}

/// The decimal text of a number begins with a digit.
pub proof fn lemma_digit_starts(n: nat)
    ensures
        is_digit(decimal(n)[0]),
    decreases n,
{
    if n < 10 {
        lemma_digit_char(n);
    } else {
        lemma_digit_starts(n / 10);
        lemma_decimal_parses(n / 10);
    }
}

/// The text of a key parses as that key.
pub proof fn lemma_key_round_trip(shape: KeyShape, key: MapKeyView)
    requires
        key_conforms(shape, key),
    ensures
        shape.parsed(key_text(key)) == Some(key),
{
    match key {
        MapKeyView::String(_) => {},
        MapKeyView::Unsigned(n) => {
            lemma_decimal_parses(n as nat);
        },
        MapKeyView::Signed(n) => {
            if n < 0 {
                let digits = decimal((-n) as nat);
                lemma_decimal_parses((-n) as nat);
                assert(key_text(key).drop_first() =~= digits);
            } else {
                lemma_decimal_parses(n as nat);
                lemma_digit_starts(n as nat);
            }
        },
    }
}

/// The slots once the first `n` fields have been decoded.
pub open spec fn slots_after(ds: Seq<DecodedView>, n: nat) -> Seq<FieldState<DecodedView>> {
    Seq::new(
        ds.len(),
        |j: int|
            if j < n {
                FieldState::Present(ds[j])
            } else {
                FieldState::Missing
            },
    )
}

/// Where no field among the first `n` is missing, looking at them for
/// missing ones changes nothing.
pub proof fn lemma_nothing_to_fill<E: DeserializeError>(
    fields: NamedFields,
    start: Progress<E::Model>,
    location: Seq<Step>,
    n: nat,
)
    requires
        n <= start.slots.len(),
        forall|j: int| 0 <= j < n ==> !(#[trigger] start.slots[j] is Missing),
    ensures
        filled::<E>(fields, start, location, n) == Ok::<Progress<E::Model>, E::Model>(start),
    decreases n,
{
    if n > 0 {
        lemma_nothing_to_fill::<E>(fields, start, location, (n - 1) as nat);
    }
}

/// Round trip: decoding the encoding of a value gives the value back,
/// whatever the error type and the location.
pub proof fn lemma_round_trip<E: DeserializeError>(
    shape: Shape,
    d: DecodedView,
    location: Seq<Step>,
)
    requires
        conforms(shape, d),
    ensures
        decoded::<E>(shape, encoded(shape, d), location) == Ok::<DecodedView, E::Model>(d),
    decreases shape, 0nat,
{
    match shape {
        Shape::Optional(inner) => {
            match d {
                DecodedView::Optional(Some(x)) => {
                    lemma_round_trip::<E>(*inner, *x, location);
                },
                _ => {},
            }
        },
        Shape::Boxed(inner) => {
            match d {
                DecodedView::Boxed(x) => {
                    lemma_round_trip::<E>(*inner, *x, location);
                },
                _ => {},
            }
        },
        Shape::Sequence(inner) => {
            let ds = d->Sequence_0;
            lemma_items_round_trip::<E>(*inner, ds, location, ds.len());
            assert(ds.take(ds.len() as int) =~= ds);
        },
        Shape::Mapping(key, inner) => {
            let es = d->Mapping_0;
            lemma_entries_round_trip::<E>(key, *inner, es, location, es.len());
            assert(es.take(es.len() as int) =~= es);
        },
        Shape::Tuple(shapes) => {
            let ds = d->Tuple_0;
            lemma_tuple_round_trip::<E>(shapes, ds, location, ds.len());
            assert(ds.take(ds.len() as int) =~= ds);
            assert(tuple_conforms(shapes, ds));
            assert(decoded_whole_tuple::<E>(shapes, encoded_tuple(shapes, ds), location) == Ok::<
                Seq<DecodedView>,
                E::Model,
            >(ds));
        },
        Shape::Derived(info) => {
            match info.data {
                DerivedTypeData::Struct(fields) => {
                    let ds = d->Struct_0;
                    lemma_fields_round_trip::<E>(fields, info.common.unknown_key, ds, location);
                },
                DerivedTypeData::Enum { tag, variants } => {
                    let v = d->Variant_0;
                    let ds = d->Variant_1;
                    let name = variants[v as int].key_name@;
                    let entries = encoded(shape, d)->Mapping_0;
                    assert(entries[0] == (tag@, ValueView::String(name)));
                    lemma_first_index(keys_of(entries), tag@, 0);
                    match variants[v as int].data {
                        VariantData::Unit => {
                            assert(ds =~= Seq::empty());
                        },
                        VariantData::Named(fields) => {
                            assert(entries.remove(0) =~= encoded_fields(fields, ds));
                            lemma_fields_round_trip::<E>(
                                fields,
                                info.common.unknown_key,
                                ds,
                                location,
                            );
                        },
                    }
                    assert(decoded_variant::<E>(
                        v,
                        variants[v as int],
                        info.common.unknown_key,
                        entries.remove(0),
                        location,
                    ) == Ok::<DecodedView, E::Model>(d));
                    assert(decoded_enum::<E>(
                        tag@,
                        variants,
                        info.common.unknown_key,
                        entries,
                        location,
                    ) == Ok::<DecodedView, E::Model>(d));
                },
            }
        },
        _ => {},
    }
}

/// Round trip of the first `n` items of a sequence.
pub proof fn lemma_items_round_trip<E: DeserializeError>(
    inner: Shape,
    ds: Seq<DecodedView>,
    location: Seq<Step>,
    n: nat,
)
    requires
        items_conform(inner, ds),
        n <= ds.len(),
    ensures
        decoded_items::<E>(inner, encoded_items(inner, ds), location, n) == Ok::<
            Seq<DecodedView>,
            E::Model,
        >(ds.take(n as int)),
    decreases inner, n,
{
    if n == 0 {
        assert(ds.take(0) =~= Seq::empty());
    } else {
        lemma_items_round_trip::<E>(inner, ds, location, (n - 1) as nat);
        lemma_round_trip::<E>(inner, ds[n - 1], location.push(Step::Index((n - 1) as nat)));
        assert(ds.take(n - 1).push(ds[n - 1]) =~= ds.take(n as int));
    }
}

/// Round trip of the first `n` items of a tuple.
pub proof fn lemma_tuple_round_trip<E: DeserializeError>(
    shapes: Vec<Shape>,
    ds: Seq<DecodedView>,
    location: Seq<Step>,
    n: nat,
)
    requires
        tuple_conforms(shapes, ds),
        n <= ds.len(),
    ensures
        decoded_tuple::<E>(shapes, encoded_tuple(shapes, ds), location, n) == Ok::<
            Seq<DecodedView>,
            E::Model,
        >(ds.take(n as int)),
    decreases shapes, n,
{
    if n == 0 {
        assert(ds.take(0) =~= Seq::empty());
    } else {
        lemma_tuple_round_trip::<E>(shapes, ds, location, (n - 1) as nat);
        lemma_round_trip::<E>(shapes[n - 1], ds[n - 1], location.push(Step::Index((n - 1) as nat)));
        assert(ds.take(n - 1).push(ds[n - 1]) =~= ds.take(n as int));
    }
}

/// Round trip of the first `n` entries of a mapping.
pub proof fn lemma_entries_round_trip<E: DeserializeError>(
    key: KeyShape,
    inner: Shape,
    es: Seq<(MapKeyView, DecodedView)>,
    location: Seq<Step>,
    n: nat,
)
    requires
        entries_conform(key, inner, es),
        n <= es.len(),
    ensures
        decoded_entries::<E>(key, inner, encoded_entries(inner, es), location, n) == Ok::<
            Seq<(MapKeyView, DecodedView)>,
            E::Model,
        >(es.take(n as int)),
    decreases inner, n,
{
    if n == 0 {
        assert(es.take(0) =~= Seq::empty());
    } else {
        let last = es[n - 1];
        let done = es.take(n - 1);
        lemma_entries_round_trip::<E>(key, inner, es, location, (n - 1) as nat);
        lemma_key_round_trip(key, last.0);
        lemma_round_trip::<E>(inner, last.1, location.push(Step::Key(key_text(last.0))));
        assert forall|j: int| 0 <= j < keys_of(done).len() implies keys_of(done)[j] != last.0 by {
            assert(keys_of(es)[j] == es[j].0);
            assert(keys_of(es)[n - 1] == last.0);
        }
        lemma_no_index(keys_of(done), last.0);
        assert(upsert(done, last.0, last.1) =~= es.take(n as int));
    }
}

/// Round trip of the fields of a struct or of a variant.
pub proof fn lemma_fields_round_trip<E: DeserializeError>(
    fields: NamedFields,
    unknown_key: Option<DenyUnknownFields>,
    ds: Seq<DecodedView>,
    location: Seq<Step>,
)
    requires
        fields_conform(fields, ds),
    ensures
        decoded_fields::<E>(fields, unknown_key, encoded_fields(fields, ds), location) == Ok::<
            Seq<DecodedView>,
            E::Model,
        >(ds),
    decreases fields, ds.len() + 1,
{
    lemma_scan_round_trip::<E>(fields, unknown_key, ds, location, ds.len());
    let start = Progress::<E::Model> { slots: slots_after(ds, ds.len()), error: None };
    lemma_nothing_to_fill::<E>(fields, start, location, ds.len());
    assert(values_of(start.slots) =~= ds);
}

/// Round trip of the first `n` fields: each is present once its entry has
/// been scanned, and nothing has been reported.
pub proof fn lemma_scan_round_trip<E: DeserializeError>(
    fields: NamedFields,
    unknown_key: Option<DenyUnknownFields>,
    ds: Seq<DecodedView>,
    location: Seq<Step>,
    n: nat,
)
    requires
        fields_conform(fields, ds),
        n <= ds.len(),
    ensures
        scanned::<E>(fields, unknown_key, encoded_fields(fields, ds), location, n) == Ok::<
            Progress<E::Model>,
            E::Model,
        >(Progress { slots: slots_after(ds, n), error: None }),
    decreases fields, n,
{
    let entries = encoded_fields(fields, ds);
    if n == 0 {
        assert(slots_after(ds, 0) =~= Seq::new(
            fields.fields.len() as nat,
            |j: int| FieldState::<DecodedView>::Missing,
        ));
    } else {
        let j = (n - 1) as int;
        lemma_scan_round_trip::<E>(fields, unknown_key, ds, location, (n - 1) as nat);
        let before = Progress::<E::Model> { slots: slots_after(ds, (n - 1) as nat), error: None };
        let key = fields.fields[j].key_name@;
        let value = encoded(fields.fields[j].field_ty, ds[j]);
        assert(entries[j] == (key, value));
        let names = key_names(fields);
        assert(names[j] == key);
        assert forall|k: int| 0 <= k < j implies names[k] != key by {
            assert(names[k] != names[j]);
        }
        lemma_first_index(names, key, j);
        lemma_round_trip::<E>(fields.fields[j].field_ty, ds[j], location.push(Step::Key(key)));
        assert(before.slots.update(j, FieldState::Present(ds[j])) =~= slots_after(ds, n));
        assert(scan_step::<E>(fields, unknown_key, before, key, value, location) == Ok::<
            Progress<E::Model>,
            E::Model,
        >(Progress { slots: slots_after(ds, n), error: None }));
    }
}

/// Idempotence: two decodes of one value as one shape at one location
/// return the same.
pub proof fn lemma_decoding_repeats<E: DeserializeError>(
    shape: Shape,
    value: ValueView,
    location: Seq<Step>,
    first: Result<Decoded, E>,
    second: Result<Decoded, E>,
)
    requires
        outcome(first) == decoded::<E>(shape, value, location),
        outcome(second) == decoded::<E>(shape, value, location),
    ensures
        outcome(first) == outcome(second),
{
}

/// A sequence that has not as many items as the tuple has shapes is an
/// unexpected problem, whatever the items are. With the error type of this
/// crate it is reported as such, not as a value of the wrong kind.
pub proof fn lemma_tuple_arity<E: DeserializeError>(
    shapes: Vec<Shape>,
    items: Seq<ValueView>,
    location: Seq<Step>,
)
    requires
        items.len() != shapes.len(),
    ensures
        decoded::<E>(Shape::Tuple(shapes), ValueView::Sequence(items), location) == Err::<
            DecodedView,
            E::Model,
        >(unexpected::<E>("invalid sequence length"@, location)),
        decoded::<Error>(Shape::Tuple(shapes), ValueView::Sequence(items), location) == Err::<
            DecodedView,
            ErrorView,
        >(ErrorView::Unexpected { msg: "invalid sequence length"@, location }),
{
    assert(decoded_whole_tuple::<E>(shapes, items, location) is Err);
    assert(decoded_whole_tuple::<Error>(shapes, items, location) is Err);
}

/// A key that does not parse as the type of the keys fails the decode of
/// the whole mapping. Where the entries before it decode, the failure is
/// the unexpected problem of that key.
pub proof fn lemma_bad_key_fails<E: DeserializeError>(
    key: KeyShape,
    inner: Shape,
    entries: Seq<(Seq<char>, ValueView)>,
    location: Seq<Step>,
    at: int,
)
    requires
        0 <= at < entries.len(),
        key.parsed(entries[at].0) is None,
    ensures
        decoded::<E>(Shape::Mapping(key, Box::new(inner)), ValueView::Mapping(entries), location)
            is Err,
        decoded_entries::<E>(key, inner, entries, location, at as nat) is Ok ==> decoded::<E>(
            Shape::Mapping(key, Box::new(inner)),
            ValueView::Mapping(entries),
            location,
        ) == Err::<DecodedView, E::Model>(
            unexpected::<E>("cannot parse map key"@, location.push(Step::Key(entries[at].0))),
        ),
{
    let n = (at + 1) as nat;
    assert(decoded_entries::<E>(key, inner, entries, location, n) is Err);
    lemma_entries_stay_failed::<E>(key, inner, entries, location, n, entries.len());
    if decoded_entries::<E>(key, inner, entries, location, at as nat) is Ok {
        assert(decoded_entries::<E>(key, inner, entries, location, n) == Err::<
            Seq<(MapKeyView, DecodedView)>,
            E::Model,
        >(unexpected::<E>("cannot parse map key"@, location.push(Step::Key(entries[at].0)))));
    }
}

/// Whether no entry of the input lies under the key of the field at `j`.
pub open spec fn lacks_field(
    fields: NamedFields,
    entries: Seq<(Seq<char>, ValueView)>,
    j: int,
) -> bool {
    forall|i: int| 0 <= i < entries.len() ==> (#[trigger] entries[i]).0 != key_names(fields)[j]
}

/// While the scan goes on there is one slot for each field, and a field
/// that the input lacks stays missing.
pub proof fn lemma_lacking_stays_missing<E: DeserializeError>(
    fields: NamedFields,
    unknown_key: Option<DenyUnknownFields>,
    entries: Seq<(Seq<char>, ValueView)>,
    location: Seq<Step>,
    j: int,
    n: nat,
)
    requires
        0 <= j < fields.fields.len(),
        lacks_field(fields, entries, j),
        n <= entries.len(),
    ensures
        scanned::<E>(fields, unknown_key, entries, location, n) matches Ok(p) ==> p.slots.len()
            == fields.fields.len() && p.slots[j] is Missing,
    decreases n,
{
    if n > 0 {
        lemma_lacking_stays_missing::<E>(
            fields,
            unknown_key,
            entries,
            location,
            j,
            (n - 1) as nat,
        );
        match scanned::<E>(fields, unknown_key, entries, location, (n - 1) as nat) {
            Ok(before) => {
                {
                    let key = entries[n - 1].0;
                    key_names(fields).index_of_first_ensures(key);
                    assert(scanned::<E>(fields, unknown_key, entries, location, n)
                        == scan_step::<E>(
                        fields,
                        unknown_key,
                        before,
                        key,
                        entries[n - 1].1,
                        location,
                    ));
                }
            },
            Err(_) => {},
        }
    }
}

/// Looking at the fields for missing ones keeps one slot for each field,
/// and leaves alone the fields that it has not come to.
pub proof fn lemma_fill_keeps_later<E: DeserializeError>(
    fields: NamedFields,
    start: Progress<E::Model>,
    location: Seq<Step>,
    j: int,
    n: nat,
)
    requires
        n <= j < start.slots.len(),
    ensures
        filled::<E>(fields, start, location, n) matches Ok(p) ==> p.slots.len()
            == start.slots.len() && p.slots[j] == start.slots[j],
    decreases n,
{
    if n > 0 {
        lemma_fill_keeps_later::<E>(fields, start, location, j, (n - 1) as nat);
        lemma_fill_keeps_later::<E>(fields, start, location, n - 1, (n - 1) as nat);
    }
}

/// Once a problem has been recorded, looking at more fields ends with a
/// problem recorded, or ends the decode.
pub proof fn lemma_fill_keeps_error<E: DeserializeError>(
    fields: NamedFields,
    start: Progress<E::Model>,
    location: Seq<Step>,
    n: nat,
    m: nat,
)
    requires
        n <= m <= start.slots.len(),
        filled::<E>(fields, start, location, n) matches Ok(p) ==> p.error is Some,
    ensures
        filled::<E>(fields, start, location, m) matches Ok(p) ==> p.error is Some,
    decreases m,
{
    if n < m {
        lemma_fill_keeps_error::<E>(fields, start, location, n, (m - 1) as nat);
    }
}

/// A field that the input lacks, and that has no default, fails the decode,
/// whatever the error type answers.
pub proof fn lemma_missing_field_fails<E: DeserializeError>(
    fields: NamedFields,
    unknown_key: Option<DenyUnknownFields>,
    entries: Seq<(Seq<char>, ValueView)>,
    location: Seq<Step>,
    j: int,
)
    requires
        0 <= j < fields.fields.len(),
        lacks_field(fields, entries, j),
        field_default(fields.fields[j]) is None,
    ensures
        decoded_fields::<E>(fields, unknown_key, entries, location) is Err,
{
    lemma_lacking_stays_missing::<E>(fields, unknown_key, entries, location, j, entries.len());
    match scanned::<E>(fields, unknown_key, entries, location, entries.len()) {
        Ok(start) => {
            lemma_fill_keeps_later::<E>(fields, start, location, j, j as nat);
            assert(filled::<E>(fields, start, location, (j + 1) as nat) matches Ok(p)
                ==> p.error is Some);
            lemma_fill_keeps_error::<E>(
                fields,
                start,
                location,
                (j + 1) as nat,
                fields.fields.len() as nat,
            );
        },
        Err(_) => {},
    }
}

/// With the error type of this crate, and fields whose keys differ from one
/// another, an input that is in order but for the fields that it lacks
/// gives the missing field at the key of the first field that it lacks and
/// that has no default.
pub proof fn lemma_missing_field_reported(
    fields: NamedFields,
    unknown_key: Option<DenyUnknownFields>,
    entries: Seq<(Seq<char>, ValueView)>,
    location: Seq<Step>,
    j: int,
)
    requires
        0 <= j < fields.fields.len(),
        lacks_field(fields, entries, j),
        field_default(fields.fields[j]) is None,
        fields.fields[j].missing_field_error is None,
        key_names(fields).no_duplicates(),
        scanned::<Error>(fields, unknown_key, entries, location, entries.len()) is Ok,
        forall|k: int|
            0 <= k < j ==> !lacks_field(fields, entries, k) || field_default(
                #[trigger] fields.fields[k],
            ) is Some,
    ensures
        decoded_fields::<Error>(fields, unknown_key, entries, location) == Err::<
            Seq<DecodedView>,
            ErrorView,
        >(ErrorView::MissingField { field: fields.fields[j].key_name@, location }),
{
    lemma_lacking_stays_missing::<Error>(
        fields,
        unknown_key,
        entries,
        location,
        j,
        entries.len(),
    );
    let start = scanned::<Error>(fields, unknown_key, entries, location, entries.len())->Ok_0;
    lemma_fill_never_records(fields, start, location, j as nat);
    lemma_fill_keeps_later::<Error>(fields, start, location, j, j as nat);
    lemma_fill_stays_stopped::<Error>(
        fields,
        start,
        location,
        (j + 1) as nat,
        fields.fields.len() as nat,
    );
    lemma_fill_reports_first(fields, unknown_key, entries, start, location, j, j as nat);
}

/// With the error type of this crate a report ends the decode, so what
/// goes on has recorded nothing.
pub proof fn lemma_fill_never_records(
    fields: NamedFields,
    start: Progress<ErrorView>,
    location: Seq<Step>,
    n: nat,
)
    ensures
        filled::<Error>(fields, start, location, n) matches Ok(p) ==> p.error == start.error,
    decreases n,
{
    if n > 0 {
        lemma_fill_never_records(fields, start, location, (n - 1) as nat);
    }
}

/// With the error type of this crate, the look at the fields before the
/// first one that is reported goes through.
pub proof fn lemma_fill_reports_first(
    fields: NamedFields,
    unknown_key: Option<DenyUnknownFields>,
    entries: Seq<(Seq<char>, ValueView)>,
    start: Progress<ErrorView>,
    location: Seq<Step>,
    j: int,
    n: nat,
)
    requires
        0 <= j < fields.fields.len(),
        n <= j,
        key_names(fields).no_duplicates(),
        scanned::<Error>(fields, unknown_key, entries, location, entries.len()) == Ok::<
            Progress<ErrorView>,
            ErrorView,
        >(start),
        forall|k: int|
            0 <= k < j ==> !lacks_field(fields, entries, k) || field_default(
                #[trigger] fields.fields[k],
            ) is Some,
    ensures
        filled::<Error>(fields, start, location, n) is Ok,
    decreases n,
{
    if n > 0 {
        let k = (n - 1) as int;
        lemma_fill_reports_first(
            fields,
            unknown_key,
            entries,
            start,
            location,
            j,
            (n - 1) as nat,
        );
        if lacks_field(fields, entries, k) {
            assert(field_default(fields.fields[k]) is Some);
        } else {
            let names = key_names(fields);
            assert forall|i: int| 0 <= i < k implies names[i] != names[k] by {}
            lemma_first_index(names, names[k], k);
            lemma_present_is_not_missing::<Error>(
                fields,
                unknown_key,
                entries,
                location,
                k,
                entries.len(),
            );
            lemma_fill_keeps_later::<Error>(fields, start, location, k, k as nat);
        }
    }
}

/// A field that has an entry under its key among the first `n` is not
/// missing once these have been scanned.
pub proof fn lemma_present_is_not_missing<E: DeserializeError>(
    fields: NamedFields,
    unknown_key: Option<DenyUnknownFields>,
    entries: Seq<(Seq<char>, ValueView)>,
    location: Seq<Step>,
    j: int,
    n: nat,
)
    requires
        0 <= j < fields.fields.len(),
        n <= entries.len(),
        key_names(fields).index_of_first(key_names(fields)[j]) == Some(j),
        exists|i: int|
            0 <= i < n && (#[trigger] entries[i]).0 == key_names(fields)[j],
    ensures
        scanned::<E>(fields, unknown_key, entries, location, n) matches Ok(p) ==> p.slots.len()
            == fields.fields.len() && !(p.slots[j] is Missing),
    decreases n,
{
    if n > 0 {
        lemma_scan_keeps_slots::<E>(fields, unknown_key, entries, location, j, n);
        let last = n - 1;
        if entries[last].0 == key_names(fields)[j] {
            match scanned::<E>(fields, unknown_key, entries, location, (n - 1) as nat) {
                Ok(before) => {
                    lemma_scan_keeps_slots::<E>(
                        fields,
                        unknown_key,
                        entries,
                        location,
                        j,
                        (n - 1) as nat,
                    );
                    assert(scanned::<E>(fields, unknown_key, entries, location, n)
                        == scan_step::<E>(
                        fields,
                        unknown_key,
                        before,
                        entries[last].0,
                        entries[last].1,
                        location,
                    ));
                },
                Err(_) => {},
            }
        } else {
            let i = choose|i: int|
                0 <= i < n && (#[trigger] entries[i]).0 == key_names(fields)[j];
            assert(0 <= i < n - 1 && entries[i].0 == key_names(fields)[j]);
            lemma_present_is_not_missing::<E>(
                fields,
                unknown_key,
                entries,
                location,
                j,
                (n - 1) as nat,
            );
        }
    }
}

/// The scan keeps one slot for each field, and a field that is not missing
/// stays so.
pub proof fn lemma_scan_keeps_slots<E: DeserializeError>(
    fields: NamedFields,
    unknown_key: Option<DenyUnknownFields>,
    entries: Seq<(Seq<char>, ValueView)>,
    location: Seq<Step>,
    j: int,
    n: nat,
)
    requires
        0 <= j < fields.fields.len(),
        n <= entries.len(),
    ensures
        scanned::<E>(fields, unknown_key, entries, location, n) matches Ok(p) ==> p.slots.len()
            == fields.fields.len(),
        n > 0 ==> (scanned::<E>(fields, unknown_key, entries, location, n) matches Ok(p)
            ==> (scanned::<E>(
            fields,
            unknown_key,
            entries,
            location,
            (n - 1) as nat,
        ) matches Ok(before) && (!(before.slots[j] is Missing) ==> !(p.slots[j] is Missing)))),
    decreases n,
{
    if n > 0 {
        lemma_scan_keeps_slots::<E>(fields, unknown_key, entries, location, j, (n - 1) as nat);
        match scanned::<E>(fields, unknown_key, entries, location, (n - 1) as nat) {
            Ok(before) => {
                {
                    key_names(fields).index_of_first_ensures(entries[n - 1].0);
                    assert(scanned::<E>(fields, unknown_key, entries, location, n)
                        == scan_step::<E>(
                        fields,
                        unknown_key,
                        before,
                        entries[n - 1].0,
                        entries[n - 1].1,
                        location,
                    ));
                }
            },
            Err(_) => {},
        }
    }
}

/// Looking at more fields leaves alone the fields that it has come past.
pub proof fn lemma_fill_keeps_earlier<E: DeserializeError>(
    fields: NamedFields,
    start: Progress<E::Model>,
    location: Seq<Step>,
    j: int,
    n: nat,
    m: nat,
)
    requires
        0 <= j < n <= m <= start.slots.len(),
    ensures
        filled::<E>(fields, start, location, m) matches Ok(q) ==> (filled::<E>(
            fields,
            start,
            location,
            n,
        ) matches Ok(p) && q.slots.len() == start.slots.len() && q.slots[j] == p.slots[j]),
    decreases m,
{
    if n < m {
        lemma_fill_keeps_earlier::<E>(fields, start, location, j, n, (m - 1) as nat);
        lemma_fill_keeps_later::<E>(fields, start, location, m - 1, (m - 1) as nat);
    } else {
        lemma_fill_keeps_later::<E>(fields, start, location, n - 1, (n - 1) as nat);
    }
}

/// A field that the input lacks, and that has a default, takes the default:
/// nothing is reported for it, and where the decode succeeds the field
/// holds the default.
pub proof fn lemma_missing_field_takes_default<E: DeserializeError>(
    fields: NamedFields,
    unknown_key: Option<DenyUnknownFields>,
    entries: Seq<(Seq<char>, ValueView)>,
    location: Seq<Step>,
    j: int,
)
    requires
        0 <= j < fields.fields.len(),
        lacks_field(fields, entries, j),
        field_default(fields.fields[j]) is Some,
    ensures
        decoded_fields::<E>(fields, unknown_key, entries, location) matches Ok(values)
            ==> values[j] == field_default(fields.fields[j])->Some_0,
        scanned::<E>(fields, unknown_key, entries, location, entries.len()) matches Ok(start)
            ==> (filled::<E>(fields, start, location, j as nat) matches Ok(p) ==> filled::<E>(
            fields,
            start,
            location,
            (j + 1) as nat,
        ) matches Ok(q) && q.error == p.error),
{
    lemma_lacking_stays_missing::<E>(fields, unknown_key, entries, location, j, entries.len());
    match scanned::<E>(fields, unknown_key, entries, location, entries.len()) {
        Ok(start) => {
            lemma_fill_keeps_later::<E>(fields, start, location, j, j as nat);
            lemma_fill_keeps_earlier::<E>(
                fields,
                start,
                location,
                j,
                (j + 1) as nat,
                fields.fields.len() as nat,
            );
        },
        Err(_) => {},
    }
}

/// Where keys that name no field are ignored, an entry under such a key
/// is discarded: the decode goes as if the entry were not there.
pub proof fn lemma_unknown_key_ignored<E: DeserializeError>(
    fields: NamedFields,
    entries: Seq<(Seq<char>, ValueView)>,
    location: Seq<Step>,
    at: int,
)
    requires
        0 <= at < entries.len(),
        !key_names(fields).contains(entries[at].0),
    ensures
        decoded_fields::<E>(fields, None, entries, location) == decoded_fields::<E>(
            fields,
            None,
            entries.remove(at),
            location,
        ),
{
    lemma_scan_without_unknown::<E>(fields, entries, location, at, entries.len());
}

/// The scan of the first `n` entries goes by these entries alone.
pub proof fn lemma_scan_of_prefix<E: DeserializeError>(
    fields: NamedFields,
    unknown_key: Option<DenyUnknownFields>,
    first: Seq<(Seq<char>, ValueView)>,
    second: Seq<(Seq<char>, ValueView)>,
    location: Seq<Step>,
    n: nat,
)
    requires
        n <= first.len(),
        n <= second.len(),
        forall|i: int| 0 <= i < n ==> first[i] == second[i],
    ensures
        scanned::<E>(fields, unknown_key, first, location, n) == scanned::<E>(
            fields,
            unknown_key,
            second,
            location,
            n,
        ),
    decreases n,
{
    if n > 0 {
        lemma_scan_of_prefix::<E>(fields, unknown_key, first, second, location, (n - 1) as nat);
    }
}

/// The scan that ignores keys that name no field, once it is past an entry
/// under such a key, has come as far as the scan of the entries without
/// that entry.
pub proof fn lemma_scan_without_unknown<E: DeserializeError>(
    fields: NamedFields,
    entries: Seq<(Seq<char>, ValueView)>,
    location: Seq<Step>,
    at: int,
    n: nat,
)
    requires
        0 <= at < n <= entries.len(),
        !key_names(fields).contains(entries[at].0),
    ensures
        scanned::<E>(fields, None, entries, location, n) == scanned::<E>(
            fields,
            None,
            entries.remove(at),
            location,
            (n - 1) as nat,
        ),
    decreases n,
{
    let without = entries.remove(at);
    if n == at + 1 {
        lemma_scan_of_prefix::<E>(fields, None, entries, without, location, at as nat);
        key_names(fields).index_of_first_ensures(entries[at].0);
        match scanned::<E>(fields, None, entries, location, at as nat) {
            Ok(before) => {
                assert(scan_step::<E>(
                    fields,
                    None,
                    before,
                    entries[at].0,
                    entries[at].1,
                    location,
                ) == Ok::<Progress<E::Model>, E::Model>(before));
            },
            Err(_) => {},
        }
    } else {
        lemma_scan_without_unknown::<E>(fields, entries, location, at, (n - 1) as nat);
        assert(without[n - 2] == entries[n - 1]);
    }
}

/// Once a problem has been recorded, scanning more entries ends with a
/// problem recorded, or ends the decode.
pub proof fn lemma_scan_keeps_error<E: DeserializeError>(
    fields: NamedFields,
    unknown_key: Option<DenyUnknownFields>,
    entries: Seq<(Seq<char>, ValueView)>,
    location: Seq<Step>,
    n: nat,
    m: nat,
)
    requires
        n <= m <= entries.len(),
        scanned::<E>(fields, unknown_key, entries, location, n) matches Ok(p)
            ==> p.error is Some,
    ensures
        scanned::<E>(fields, unknown_key, entries, location, m) matches Ok(p)
            ==> p.error is Some,
    decreases m,
{
    if n < m {
        lemma_scan_keeps_error::<E>(
            fields,
            unknown_key,
            entries,
            location,
            n,
            (m - 1) as nat,
        );
        match scanned::<E>(fields, unknown_key, entries, location, (m - 1) as nat) {
            Ok(before) => {
                {
                    assert(scanned::<E>(fields, unknown_key, entries, location, m)
                        == scan_step::<E>(
                        fields,
                        unknown_key,
                        before,
                        entries[m - 1].0,
                        entries[m - 1].1,
                        location,
                    ));
                }
            },
            Err(_) => {},
        }
    }
}

/// Where keys that name no field are refused, an entry under such a key
/// fails the decode, whatever the error type answers. With the error type
/// of this crate, and the entries before it in order, the failure is the
/// unknown key, naming that key and the keys of the fields.
pub proof fn lemma_unknown_key_refused<E: DeserializeError>(
    fields: NamedFields,
    refusal: DenyUnknownFields,
    entries: Seq<(Seq<char>, ValueView)>,
    location: Seq<Step>,
    at: int,
)
    requires
        0 <= at < entries.len(),
        !key_names(fields).contains(entries[at].0),
    ensures
        decoded_fields::<E>(fields, Some(refusal), entries, location) is Err,
        refusal is DefaultError && scanned::<Error>(
            fields,
            Some(refusal),
            entries,
            location,
            at as nat,
        ) is Ok ==> decoded_fields::<Error>(fields, Some(refusal), entries, location)
            == Err::<Seq<DecodedView>, ErrorView>(
            ErrorView::UnknownKey { key: entries[at].0, accepted: key_names(fields), location },
        ),
{
    key_names(fields).index_of_first_ensures(entries[at].0);
    let n = (at + 1) as nat;
    match scanned::<E>(fields, Some(refusal), entries, location, at as nat) {
        Ok(before) => {
            assert(scanned::<E>(fields, Some(refusal), entries, location, n)
                == scan_step::<E>(
                fields,
                Some(refusal),
                before,
                entries[at].0,
                entries[at].1,
                location,
            ));
        },
        Err(_) => {},
    }
    lemma_scan_keeps_error::<E>(fields, Some(refusal), entries, location, n, entries.len());
    match scanned::<E>(fields, Some(refusal), entries, location, entries.len()) {
        Ok(start) => {
            if fields.fields.len() > 0 {
                lemma_scan_keeps_slots::<E>(
                    fields,
                    Some(refusal),
                    entries,
                    location,
                    0,
                    entries.len(),
                );
                lemma_fill_keeps_error::<E>(
                    fields,
                    start,
                    location,
                    0,
                    fields.fields.len() as nat,
                );
            }
        },
        Err(_) => {},
    }
    match scanned::<Error>(fields, Some(refusal), entries, location, at as nat) {
        Ok(before) => {
            if refusal is DefaultError {
                assert(scanned::<Error>(fields, Some(refusal), entries, location, n)
                    == scan_step::<Error>(
                    fields,
                    Some(refusal),
                    before,
                    entries[at].0,
                    entries[at].1,
                    location,
                ));
                lemma_scan_stays_stopped::<Error>(
                    fields,
                    Some(refusal),
                    entries,
                    location,
                    n,
                    entries.len(),
                );
            }
        },
        Err(_) => {},
    }
}

/// A mapping without the tag is reported as lacking the field of the tag.
pub proof fn lemma_missing_tag<E: DeserializeError>(
    tag: Seq<char>,
    variants: Vec<Variant>,
    unknown_key: Option<DenyUnknownFields>,
    entries: Seq<(Seq<char>, ValueView)>,
    location: Seq<Step>,
)
    requires
        !keys_of(entries).contains(tag),
    ensures
        decoded_enum::<E>(tag, variants, unknown_key, entries, location) == Err::<
            DecodedView,
            E::Model,
        >(settle(E::on_missing_field(None, tag, location))),
        decoded_enum::<Error>(tag, variants, unknown_key, entries, location) == Err::<
            DecodedView,
            ErrorView,
        >(ErrorView::MissingField { field: tag, location }),
{
    keys_of(entries).index_of_first_ensures(tag);
}

/// A tag that selects no variant is an unexpected problem.
pub proof fn lemma_unknown_tag<E: DeserializeError>(
    tag: Seq<char>,
    variants: Vec<Variant>,
    unknown_key: Option<DenyUnknownFields>,
    entries: Seq<(Seq<char>, ValueView)>,
    location: Seq<Step>,
    name: Seq<char>,
)
    requires
        keys_of(entries).index_of_first(tag) matches Some(t) && entries[t].1 == ValueView::String(
            name,
        ),
        !variant_names(variants).contains(name),
    ensures
        decoded_enum::<E>(tag, variants, unknown_key, entries, location) == Err::<
            DecodedView,
            E::Model,
        >(unexpected::<E>("unexpected value for tag"@, location.push(Step::Key(tag)))),
{
    variant_names(variants).index_of_first_ensures(name);
}

/// A tag that selects a unit variant decodes as that variant, whatever else
/// the mapping holds.
pub proof fn lemma_unit_variant<E: DeserializeError>(
    tag: Seq<char>,
    variants: Vec<Variant>,
    unknown_key: Option<DenyUnknownFields>,
    entries: Seq<(Seq<char>, ValueView)>,
    location: Seq<Step>,
    name: Seq<char>,
    v: int,
)
    requires
        keys_of(entries).index_of_first(tag) matches Some(t) && entries[t].1 == ValueView::String(
            name,
        ),
        variant_names(variants).index_of_first(name) == Some(v),
        0 <= v < variants.len(),
        variants[v].data is Unit,
    ensures
        decoded_enum::<E>(tag, variants, unknown_key, entries, location) == Ok::<
            DecodedView,
            E::Model,
        >(DecodedView::Variant(v as nat, Seq::empty())),
{
    let t = keys_of(entries).index_of_first(tag)->Some_0;
    assert(decoded_variant::<E>(v as nat, variants[v], unknown_key, entries.remove(t), location)
        == Ok::<DecodedView, E::Model>(DecodedView::Variant(v as nat, Seq::empty())));
}

} // verus!
