//! Decoding a mapping as an enum whose tag lies under a key of the mapping
//! itself.

use vstd::prelude::*;
use crate::decoded::{decoded_items_view, Decoded};
use crate::derive_struct::deserialize_struct;
use crate::error::DeserializeError;
use crate::impls::{lemma_first_index, lemma_no_index, unexpected_error};
use crate::location::ValuePointerRef;
use crate::model::{decoded_enum, decoded_variant, keys_of, outcome, variant_names};
use crate::parse_type::{CommonDerivedTypeInfo, Variant, VariantData};
use crate::value::{entries_view, IntoValue, Mapping, Value};

verus! {

/// The index of the variant that the tag `name` selects, if any: the text
/// must match exactly.
pub fn find_variant(variants: &Vec<Variant>, name: &String) -> (found: Option<usize>)
    ensures
        (match found {
            Some(v) => Some(v as int),
            None => None,
        }) == variant_names(*variants).index_of_first(name@),
        found matches Some(v) ==> v < variants.len(),
{
    let ghost names = variant_names(*variants);
    let mut v: usize = 0;
    while v < variants.len()
        invariant
            v <= variants.len(),
            names == variant_names(*variants),
            forall|k: int| 0 <= k < v ==> names[k] != name@,
        decreases variants.len() - v,
    {
        if variants[v].key_name == *name {
            proof {
                lemma_first_index(names, name@, v as int);
            }
            return Some(v);
        }
        v += 1;
    }
    proof {
        lemma_no_index(names, name@);
    }
    None
}

/// Decodes the entries of a mapping as an enum whose tag lies under `tag`.
///
/// The tag is taken out of the mapping first. A mapping without it gives
/// the report of a missing field; a tag that is no string, or that selects
/// no variant, the report of an unexpected problem, located at the tag. A
/// unit variant is decoded at once, whatever else the mapping holds. The
/// fields of any other variant are decoded from the entries that are left,
/// as those of a struct are.
pub fn deserialize_tagged_enum<V: IntoValue, E: DeserializeError>(
    info: &CommonDerivedTypeInfo,
    tag: &String,
    variants: &Vec<Variant>,
    mapping: V::Mapping,
    location: ValuePointerRef<'_>,
) -> (r: Result<Decoded, E>)
    ensures
        outcome(r) == decoded_enum::<E>(
            tag@,
            *variants,
            info.unknown_key,
            entries_view(mapping.entries()),
            location@,
        ),
    decreases *variants, 0nat,
{
    let mut mapping = mapping;
    let ghost all = mapping.entries();
    proof {
        lemma_keys_of_view::<V>(all);
        keys_of(all).index_of_first_ensures(tag@);
    }
    let item = match Mapping::remove(&mut mapping, tag.as_str()) {
        Some(item) => item,
        None => {
            return match E::missing_field(None, tag.as_str(), location) {
                Ok(e) => Err(e),
                Err(e) => Err(e),
            };
        },
    };
    let ghost at = keys_of(all).index_of_first(tag@)->Some_0;
    assert(entries_view(all)[at].1 == item.value());
    assert(entries_view(mapping.entries()) =~= entries_view(all).remove(at));
    let here = location.push_key(tag.as_str());
    let name = match item.into_value() {
        Value::String(name) => name,
        _ => {
            return Err(unexpected_error("tag must be a string", here));
        },
    };
    match find_variant(variants, &name) {
        None => Err(unexpected_error("unexpected value for tag", here)),
        Some(v) => deserialize_tagged_enum_variant::<V, E>(
            info,
            v,
            &variants[v],
            mapping,
            location,
        ),
    }
}

/// The keys of entries are those of the trees below them.
pub proof fn lemma_keys_of_view<V: IntoValue>(entries: Seq<(Seq<char>, V)>)
    ensures
        keys_of(entries_view(entries)) == keys_of(entries),
{
    assert(keys_of(entries_view(entries)) =~= keys_of(entries));
}

/// Decodes the entries of a mapping, the tag taken out, as the variant at
/// `index`.
pub fn deserialize_tagged_enum_variant<V: IntoValue, E: DeserializeError>(
    info: &CommonDerivedTypeInfo,
    index: usize,
    variant: &Variant,
    mapping: V::Mapping,
    location: ValuePointerRef<'_>,
) -> (r: Result<Decoded, E>)
    ensures
        outcome(r) == decoded_variant::<E>(
            index as nat,
            *variant,
            info.unknown_key,
            entries_view(mapping.entries()),
            location@,
        ),
    decreases *variant, 0nat,
{
    match &variant.data {
        VariantData::Unit => {
            let fields: Vec<Decoded> = Vec::new();
            assert(decoded_items_view(fields@) =~= Seq::empty());
            Ok(Decoded::Variant(index, fields))
        },
        VariantData::Named(fields) => match deserialize_struct::<V, E>(
            info,
            fields,
            mapping,
            location,
        ) {
            Ok(ds) => Ok(Decoded::Variant(index, ds)),
            Err(e) => Err(e),
        },
    }
}

} // verus!
