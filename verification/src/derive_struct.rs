//! Decoding a mapping as a struct with named fields.

use vstd::prelude::*;
use crate::attribute_parser::{DenyUnknownFields, JaysonDefaultFieldAttribute};
use crate::decoded::{decoded_items_view, Decoded, DecodedView};
use crate::error::{CustomError, DeserializeError, MergeWithError};
use crate::field_state::FieldState;
use crate::impls::{items_outcome, lemma_first_index, lemma_no_index, reversed};
use crate::location::{Step, ValuePointerRef};
use crate::model::{
    decoded_fields, field_default, filled, key_names, scan_step, scanned, standard_default,
    values_of, Progress,
};
use crate::parse_type::{CommonDerivedTypeInfo, Field, NamedFields};
use crate::shape::Shape;
use crate::value::{entries_view, IntoValue, Mapping, ValueView};

verus! {

/// The models of the states of fields, in order.
pub open spec fn slots_view(slots: Seq<FieldState<Decoded>>) -> Seq<FieldState<DecodedView>> {
    Seq::new(
        slots.len(),
        |j: int|
            match slots[j] {
                FieldState::Missing => FieldState::Missing,
                FieldState::Failed => FieldState::Failed,
                FieldState::Present(d) => FieldState::Present(d@),
            },
    )
}

/// The model of an error, if there is one.
pub open spec fn error_model<E: DeserializeError>(error: Option<E>) -> Option<E::Model> {
    match error {
        Some(e) => Some(e.model()),
        None => None,
    }
}

/// Once the scan has been stopped, the entries after that change nothing.
pub proof fn lemma_scan_stays_stopped<E: DeserializeError>(
    fields: NamedFields,
    unknown_key: Option<DenyUnknownFields>,
    entries: Seq<(Seq<char>, ValueView)>,
    location: Seq<Step>,
    n: nat,
    m: nat,
)
    requires
        n <= m,
    ensures
        scanned::<E>(fields, unknown_key, entries, location, n) is Err ==> scanned::<E>(
            fields,
            unknown_key,
            entries,
            location,
            m,
        ) == scanned::<E>(fields, unknown_key, entries, location, n),
    decreases m,
{
    if n < m {
        lemma_scan_stays_stopped::<E>(fields, unknown_key, entries, location, n, (m - 1) as nat);
    }
}

/// Once the look at the fields has been stopped, the fields after that
/// change nothing.
pub proof fn lemma_fill_stays_stopped<E: DeserializeError>(
    fields: NamedFields,
    start: Progress<E::Model>,
    location: Seq<Step>,
    n: nat,
    m: nat,
)
    requires
        n <= m,
    ensures
        filled::<E>(fields, start, location, n) is Err ==> filled::<E>(
            fields,
            start,
            location,
            m,
        ) == filled::<E>(fields, start, location, n),
    decreases m,
{
    if n < m {
        lemma_fill_stays_stopped::<E>(fields, start, location, n, (m - 1) as nat);
    }
}

/// The index of the field that the input holds under `key`, if any.
pub fn find_field(fields: &NamedFields, key: &String) -> (found: Option<usize>)
    ensures
        (match found {
            Some(j) => Some(j as int),
            None => None,
        }) == key_names(*fields).index_of_first(key@),
        found matches Some(j) ==> j < fields.fields.len(),
{
    let ghost names = key_names(*fields);
    let mut j: usize = 0;
    while j < fields.fields.len()
        invariant
            j <= fields.fields.len(),
            names == key_names(*fields),
            forall|k: int| 0 <= k < j ==> names[k] != key@,
        decreases fields.fields.len() - j,
    {
        if fields.fields[j].key_name == *key {
            proof {
                lemma_first_index(names, key@, j as int);
            }
            return Some(j);
        }
        j += 1;
    }
    proof {
        lemma_no_index(names, key@);
    }
    None
}

impl Shape {
    /// The standard default of this type, where the description knows one.
    pub fn default_value(&self) -> (value: Option<Decoded>)
        ensures
            (match value {
                Some(d) => Some(d@),
                None => None,
            }) == standard_default(*self),
        decreases *self,
    {
        match self {
            Shape::Unit => Some(Decoded::Unit),
            Shape::Bool => Some(Decoded::Bool(false)),
            Shape::Unsigned(_) => Some(Decoded::Unsigned(0)),
            Shape::Signed(_) => Some(Decoded::Signed(0)),
            Shape::Float => Some(Decoded::Float(crate::decoded::Number::Float(0))),
            Shape::String => Some(Decoded::String(String::new())),
            Shape::Optional(_) => Some(Decoded::Optional(None)),
            Shape::Boxed(inner) => match inner.default_value() {
                Some(d) => Some(Decoded::Boxed(Box::new(d))),
                None => None,
            },
            Shape::Sequence(_) => {
                let items: Vec<Decoded> = Vec::new();
                assert(decoded_items_view(items@) =~= Seq::empty());
                Some(Decoded::Sequence(items))
            },
            Shape::Mapping(_, _) => {
                let entries: Vec<(crate::decoded::MapKey, Decoded)> = Vec::new();
                assert(crate::decoded::decoded_entries_view(entries@) =~= Seq::empty());
                Some(Decoded::Mapping(entries))
            },
            Shape::Tuple(_) => None,
            Shape::Derived(_) => None,
        }
    }
}

impl Field {
    /// The value that this field takes when the input lacks it, if it takes
    /// one: what its default says, or else what its type says.
    pub fn default(&self) -> (value: Option<Decoded>)
        ensures
            (match value {
                Some(d) => Some(d@),
                None => None,
            }) == field_default(*self),
    {
        match &self.field_default {
            None => self.field_ty.default(),
            Some(JaysonDefaultFieldAttribute::DefaultTrait) => self.field_ty.default_value(),
            Some(JaysonDefaultFieldAttribute::Function(value)) => Some(value.duplicate()),
        }
    }
}

/// The keys under which the input holds the fields, in order.
pub fn accepted_keys(fields: &NamedFields) -> (names: Vec<&str>)
    ensures
        names@.map_values(|name: &str| name@) == key_names(*fields),
{
    let mut names: Vec<&str> = Vec::with_capacity(fields.fields.len());
    let mut j: usize = 0;
    while j < fields.fields.len()
        invariant
            j <= fields.fields.len(),
            names@.len() == j,
            forall|k: int| 0 <= k < j ==> names@[k]@ == fields.fields@[k].key_name@,
        decreases fields.fields.len() - j,
    {
        names.push(fields.fields[j].key_name.as_str());
        j += 1;
    }
    assert(names@.map_values(|name: &str| name@) =~= key_names(*fields));
    names
}

/// Decodes the entries of a mapping as the named fields of a struct or of a
/// variant.
///
/// Every field starts out missing. Each entry whose key names a field is
/// decoded into that field, under the location extended by the key; a
/// failure marks the field and is merged into the accumulated error. An
/// entry whose key names no field is ignored, or reported, as the type
/// says. Then each field still missing takes its default, or is reported.
/// Whenever the error type answers a report with `Err`, the decode ends
/// there. It succeeds if nothing was reported.
pub fn deserialize_struct<V: IntoValue, E: DeserializeError>(
    info: &CommonDerivedTypeInfo,
    fields: &NamedFields,
    mapping: V::Mapping,
    location: ValuePointerRef<'_>,
) -> (r: Result<Vec<Decoded>, E>)
    ensures
        items_outcome(r) == decoded_fields::<E>(
            *fields,
            info.unknown_key,
            entries_view(mapping.entries()),
            location@,
        ),
    decreases *fields, 1nat,
{
    let ghost all = mapping.entries();
    let ghost input = entries_view(all);
    let count = Mapping::len(&mapping);
    let mut slots: Vec<FieldState<Decoded>> = Vec::with_capacity(fields.fields.len());
    let mut j: usize = 0;
    while j < fields.fields.len()
        invariant
            j <= fields.fields.len(),
            slots@.len() == j,
            forall|k: int| 0 <= k < j ==> slots@[k] is Missing,
        decreases fields.fields.len() - j,
    {
        slots.push(FieldState::Missing);
        j += 1;
    }
    let mut error: Option<E> = None;
    assert(slots_view(slots@) =~= Seq::new(
        fields.fields.len() as nat,
        |j: int| FieldState::<DecodedView>::Missing,
    ));
    let mut rest = reversed(Mapping::into_iter(mapping));
    let mut i: usize = 0;
    while i < count
        invariant
            i + rest@.len() == all.len(),
            all.len() == count,
            all == mapping.entries(),
            input == entries_view(all),
            forall|k: int|
                0 <= k < rest@.len() ==> (#[trigger] rest@[k]).0@ == all[all.len() - 1 - k].0
                    && rest@[k].1 == all[all.len() - 1 - k].1,
            slots@.len() == fields.fields.len(),
            error is None ==> forall|k: int| 0 <= k < slots@.len() ==> !(slots@[k] is Failed),
            scanned::<E>(*fields, info.unknown_key, input, location@, i as nat) == Ok::<
                Progress<E::Model>,
                E::Model,
            >(Progress { slots: slots_view(slots@), error: error_model(error) }),
        decreases count - i,
    {
        proof {
            lemma_scan_stays_stopped::<E>(
                *fields,
                info.unknown_key,
                input,
                location@,
                (i + 1) as nat,
                all.len(),
            );
        }
        let ghost last = rest@[rest@.len() - 1];
        let entry = rest.pop().unwrap();
        assert(entry == last);
        let (key, item) = entry;
        let here = location.push_key(key.as_str());
        let ghost before = Progress { slots: slots_view(slots@), error: error_model(error) };
        assert(input[i as int] == (key@, item.value()));
        assert(scanned::<E>(*fields, info.unknown_key, input, location@, (i + 1) as nat)
            == scan_step::<E>(*fields, info.unknown_key, before, key@, item.value(), location@));
        match find_field(fields, &key) {
            Some(at) => {
                match fields.fields[at].field_ty.deserialize_from_value::<V, E>(
                    item.into_value(),
                    here,
                ) {
                    Ok(d) => {
                        let ghost dv = d@;
                        slots[at] = FieldState::Present(d);
                        assert(slots_view(slots@) =~= before.slots.update(
                            at as int,
                            FieldState::Present(dv),
                        ));
                    },
                    Err(e) => {
                        slots[at] = FieldState::Failed;
                        assert(slots_view(slots@) =~= before.slots.update(
                            at as int,
                            FieldState::Failed,
                        ));
                        match <E as MergeWithError<E>>::merge(error, e, here) {
                            Ok(merged) => {
                                error = Some(merged);
                            },
                            Err(merged) => {
                                return Err(merged);
                            },
                        }
                    },
                }
            },
            None => {
                match info.unknown_key {
                    None => {},
                    Some(DenyUnknownFields::DefaultError) => {
                        let accepted = accepted_keys(fields);
                        match E::unknown_key(error, key.as_str(), accepted.as_slice(), location) {
                            Ok(merged) => {
                                error = Some(merged);
                            },
                            Err(merged) => {
                                return Err(merged);
                            },
                        }
                    },
                    Some(DenyUnknownFields::Function(custom)) => {
                        match <E as MergeWithError<CustomError>>::merge(error, custom, here) {
                            Ok(merged) => {
                                error = Some(merged);
                            },
                            Err(merged) => {
                                return Err(merged);
                            },
                        }
                    },
                }
            },
        }
        i += 1;
    }
    let ghost start = Progress { slots: slots_view(slots@), error: error_model(error) };
    let mut j: usize = 0;
    while j < fields.fields.len()
        invariant
            j <= fields.fields.len(),
            slots@.len() == fields.fields.len(),
            all == mapping.entries(),
            input == entries_view(all),
            error is None ==> forall|k: int| 0 <= k < slots@.len() ==> !(slots@[k] is Failed),
            error is None ==> forall|k: int| 0 <= k < j ==> slots@[k] is Present,
            scanned::<E>(*fields, info.unknown_key, input, location@, input.len()) == Ok::<
                Progress<E::Model>,
                E::Model,
            >(start),
            filled::<E>(*fields, start, location@, j as nat) == Ok::<
                Progress<E::Model>,
                E::Model,
            >(Progress { slots: slots_view(slots@), error: error_model(error) }),
        decreases fields.fields.len() - j,
    {
        proof {
            lemma_fill_stays_stopped::<E>(
                *fields,
                start,
                location@,
                (j + 1) as nat,
                fields.fields.len() as nat,
            );
        }
        if slots[j].is_missing() {
            let field = &fields.fields[j];
            let ghost before = Progress { slots: slots_view(slots@), error: error_model(error) };
            match field.default() {
                Some(d) => {
                    let ghost dv = d@;
                    slots[j] = FieldState::Present(d);
                    assert(slots_view(slots@) =~= before.slots.update(
                        j as int,
                        FieldState::Present(dv),
                    ));
                },
                None => {
                    let verdict = match field.missing_field_error {
                        None => E::missing_field(error, field.key_name.as_str(), location),
                        Some(custom) => <E as MergeWithError<CustomError>>::merge(
                            error,
                            custom,
                            location,
                        ),
                    };
                    match verdict {
                        Ok(merged) => {
                            error = Some(merged);
                        },
                        Err(merged) => {
                            return Err(merged);
                        },
                    }
                },
            }
        }
        j += 1;
    }
    match error {
        Some(e) => Err(e),
        None => {
            let ghost end = slots_view(slots@);
            let ghost all_slots = slots@;
            let mut turned = reversed(slots);
            let mut values: Vec<Decoded> = Vec::with_capacity(turned.len());
            while turned.len() > 0
                invariant
                    turned@.len() + values@.len() == all_slots.len(),
                    forall|k: int| 0 <= k < all_slots.len() ==> all_slots[k] is Present,
                    forall|k: int|
                        0 <= k < turned@.len() ==> turned@[k] == all_slots[all_slots.len() - 1
                            - k],
                    forall|k: int|
                        0 <= k < values@.len() ==> FieldState::Present(values@[k])
                            == all_slots[k],
                decreases turned@.len(),
            {
                let next = turned.pop().unwrap();
                values.push(next.unwrap());
            }
            assert(decoded_items_view(values@) =~= values_of(end));
            Ok(values)
        },
    }
}

} // verus!
