//! The description of a struct or an enum that decoding goes by.

use vstd::prelude::*;
use convert_case::{Case, Casing};
use crate::attribute_parser::{
    data_attributes_of, field_attributes_of, read_jayson_data_attributes,
    read_jayson_field_attributes, Attribute, DenyUnknownFields, FieldAttributes,
    JaysonDataAttributes, JaysonDefaultFieldAttribute, RenameAll, TagType,
};
use crate::error::CustomError;
use crate::shape::Shape;

verus! {

/// One named field.
#[derive(Debug)]
pub struct Field {
    /// The name in the declaration.
    pub field_name: String,
    pub field_ty: Shape,
    pub field_default: Option<JaysonDefaultFieldAttribute>,
    /// What to report in place of a missing field, if not the usual.
    pub missing_field_error: Option<CustomError>,
    /// The key under which the input holds the field.
    pub key_name: String,
}

/// The named fields of a struct or of a variant, in the order of their
/// declaration.
#[derive(Debug)]
pub struct NamedFields {
    pub fields: Vec<Field>,
}

/// What holds of a derived type as a whole.
#[derive(Debug)]
pub struct CommonDerivedTypeInfo {
    /// Whether keys that name no field are refused, and with what; where
    /// this is none they are ignored.
    pub unknown_key: Option<DenyUnknownFields>,
}

/// What a variant holds.
#[derive(Debug)]
pub enum VariantData {
    Unit,
    Named(NamedFields),
}

/// One variant of an enum.
#[derive(Debug)]
pub struct Variant {
    /// The name in the declaration.
    pub ident: String,
    pub data: VariantData,
    /// The text of the tag that selects the variant.
    pub key_name: String,
}

/// A struct, or an enum whose tag lies under a key of the mapping itself.
#[derive(Debug)]
pub enum DerivedTypeData {
    Struct(NamedFields),
    Enum { tag: String, variants: Vec<Variant> },
}

/// A derived type.
#[derive(Debug)]
pub struct DerivedTypeInfo {
    pub common: CommonDerivedTypeInfo,
    pub data: DerivedTypeData,
}

/// A field as it is declared: its name, its type and its attributes.
#[derive(Debug)]
pub struct FieldDeclaration {
    pub ident: String,
    pub ty: Shape,
    pub attrs: Vec<Attribute<FieldAttributes>>,
}

/// A variant as it is declared: its name, its attributes, and its named
/// fields where it has any.
#[derive(Debug)]
pub struct VariantDeclaration {
    pub ident: String,
    pub attrs: Vec<Attribute<JaysonDataAttributes>>,
    pub fields: Option<Vec<FieldDeclaration>>,
}

/// What a declaration declares.
#[derive(Debug)]
pub enum Data {
    Struct(Vec<FieldDeclaration>),
    Enum(Vec<VariantDeclaration>),
}

/// The declaration of a struct or an enum.
#[derive(Debug)]
pub struct DeriveInput {
    pub ident: String,
    pub attrs: Vec<Attribute<JaysonDataAttributes>>,
    pub data: Data,
}

/// What `convert_case` makes of a name when asked for camel case.
pub uninterp spec fn camel_case(ident: Seq<char>) -> Seq<char>;

/// What the standard library makes of a name when asked for lower case.
pub uninterp spec fn lowercase(ident: Seq<char>) -> Seq<char>;

/// Calls `convert_case::Casing::to_case` with `Case::Camel`.
///
/// Taken on trust, not proved: the call returns, and what it returns goes
/// by the name alone. `camel_case` names that result; nothing more is
/// claimed of it.
#[verifier::external_body]
fn to_camel_case(ident: &str) -> (name: String)
    ensures
        name@ == camel_case(ident@),
{
    ident.to_case(Case::Camel)
}

/// Calls `str::to_lowercase`.
///
/// Taken on trust, not proved: what the call returns goes by the name
/// alone. `lowercase` names that result; nothing more is claimed of it.
#[verifier::external_body]
fn to_lower_case(ident: &str) -> (name: String)
    ensures
        name@ == lowercase(ident@),
{
    ident.to_lowercase()
}

/// The key that stands for a name: the name that a rename gives, or else
/// the name in the case that the type asks for, or else the name itself.
pub open spec fn key_name(
    ident: Seq<char>,
    rename_all: Option<RenameAll>,
    rename: Option<Seq<char>>,
) -> Seq<char> {
    match rename {
        Some(name) => name,
        None => match rename_all {
            Some(RenameAll::CamelCase) => camel_case(ident),
            Some(RenameAll::LowerCase) => lowercase(ident),
            None => ident,
        },
    }
}

/// The key that stands for a name.
pub fn key_name_for_ident(ident: String, rename_all: Option<RenameAll>, rename: Option<&str>) -> (name:
    String)
    ensures
        name@ == key_name(
            ident@,
            rename_all,
            match rename {
                Some(name) => Some(name@),
                None => None,
            },
        ),
{
    match rename {
        Some(name) => name.to_owned(),
        None => match rename_all {
            Some(RenameAll::CamelCase) => to_camel_case(ident.as_str()),
            Some(RenameAll::LowerCase) => to_lower_case(ident.as_str()),
            None => ident,
        },
    }
}

/// Whether `field` is what `declaration` declares, under a type that asks
/// for `rename_all`.
pub open spec fn field_parsed(
    field: Field,
    declaration: FieldDeclaration,
    rename_all: Option<RenameAll>,
) -> bool {
    let attrs = field_attributes_of(declaration.attrs@, declaration.attrs@.len());
    &&& field.field_name@ == declaration.ident@
    &&& field.field_ty == declaration.ty
    &&& field.field_default == attrs.default
    &&& field.missing_field_error == attrs.missing_field_error
    &&& field.key_name@ == key_name(
        declaration.ident@,
        rename_all,
        match attrs.rename {
            Some(name) => Some(name@),
            None => None,
        },
    )
}

/// Whether `fields` are what `declarations` declare, in order.
pub open spec fn fields_parsed(
    fields: NamedFields,
    declarations: Seq<FieldDeclaration>,
    rename_all: Option<RenameAll>,
) -> bool {
    &&& fields.fields.len() == declarations.len()
    &&& forall|j: int|
        0 <= j < declarations.len() ==> field_parsed(
            #[trigger] fields.fields[j],
            declarations[j],
            rename_all,
        )
}

/// Whether `variant` is what `declaration` declares, under an enum that
/// asks for `rename_all`.
pub open spec fn variant_parsed(
    variant: Variant,
    declaration: VariantDeclaration,
    rename_all: Option<RenameAll>,
) -> bool {
    let attrs = data_attributes_of(declaration.attrs@, declaration.attrs@.len());
    &&& variant.ident@ == declaration.ident@
    &&& variant.key_name@ == key_name(
        declaration.ident@,
        rename_all,
        match attrs.rename {
            Some(name) => Some(name@),
            None => None,
        },
    )
    &&& match declaration.fields {
        None => variant.data is Unit,
        Some(declarations) => variant.data matches VariantData::Named(fields) && fields_parsed(
            fields,
            declarations@,
            attrs.rename_all,
        ),
    }
}

/// Whether `info` is what `input` declares.
pub open spec fn derived_parsed(info: DerivedTypeInfo, input: DeriveInput) -> bool {
    let attrs = data_attributes_of(input.attrs@, input.attrs@.len());
    &&& info.common.unknown_key == attrs.deny_unknown_fields
    &&& match input.data {
        Data::Struct(declarations) => info.data matches DerivedTypeData::Struct(fields)
            && fields_parsed(fields, declarations@, attrs.rename_all),
        Data::Enum(declarations) => info.data matches DerivedTypeData::Enum { tag, variants }
            && attrs.tag == TagType::Internal(tag) && variants.len() == declarations.len()
            && forall|v: int|
            0 <= v < declarations.len() ==> variant_parsed(
                #[trigger] variants[v],
                declarations[v],
                attrs.rename_all,
            ),
    }
}

impl NamedFields {
    /// The fields that `fields` declare, in order: each under the key that
    /// its name and its attributes give, with the default and the report of
    /// its absence that its attributes give.
    pub fn parse(fields: Vec<FieldDeclaration>, data_attrs: &JaysonDataAttributes) -> (parsed:
        NamedFields)
        ensures
            fields_parsed(parsed, fields@, data_attrs.rename_all),
    {
        let mut fields = fields;
        let ghost all = fields@;
        let mut parsed: Vec<Field> = Vec::with_capacity(fields.len());
        while fields.len() > 0
            invariant
                parsed@.len() + fields@.len() == all.len(),
                fields@ == all.skip(parsed@.len() as int),
                forall|j: int|
                    0 <= j < parsed@.len() ==> field_parsed(
                        #[trigger] parsed@[j],
                        all[j],
                        data_attrs.rename_all,
                    ),
            decreases fields@.len(),
        {
            let ghost n = parsed@.len() as int;
            let field = fields.remove(0);
            assert(field == all[n]);
            assert(fields@ =~= all.skip(n + 1));
            let attrs = read_jayson_field_attributes(field.attrs);
            let renamed = match &attrs.rename {
                Some(name) => Some(name.as_str()),
                None => None,
            };
            let key_name = key_name_for_ident(field.ident.clone(), data_attrs.rename_all, renamed);
            parsed.push(
                Field {
                    field_name: field.ident,
                    field_ty: field.ty,
                    field_default: attrs.default,
                    missing_field_error: attrs.missing_field_error,
                    key_name,
                },
            );
        }
        NamedFields { fields: parsed }
    }
}

impl DerivedTypeInfo {
    /// The description of the struct or the enum that `input` declares.
    ///
    /// An enum has to say under which key its tag lies.
    pub fn parse(input: DeriveInput) -> (info: DerivedTypeInfo)
        requires
            input.data is Enum ==> data_attributes_of(input.attrs@, input.attrs@.len()).tag
                is Internal,
        ensures
            derived_parsed(info, input),
    {
        let attrs = read_jayson_data_attributes(input.attrs);
        let data = match input.data {
            Data::Struct(fields) => DerivedTypeData::Struct(NamedFields::parse(fields, &attrs)),
            Data::Enum(variants) => {
                let mut variants = variants;
                let ghost all = variants@;
                let mut parsed: Vec<Variant> = Vec::with_capacity(variants.len());
                while variants.len() > 0
                    invariant
                        parsed@.len() + variants@.len() == all.len(),
                        variants@ == all.skip(parsed@.len() as int),
                        forall|v: int|
                            0 <= v < parsed@.len() ==> variant_parsed(
                                #[trigger] parsed@[v],
                                all[v],
                                attrs.rename_all,
                            ),
                    decreases variants@.len(),
                {
                    let ghost n = parsed@.len() as int;
                    let variant = variants.remove(0);
                    assert(variant == all[n]);
                    assert(variants@ =~= all.skip(n + 1));
                    let variant_attrs = read_jayson_data_attributes(variant.attrs);
                    let renamed = match &variant_attrs.rename {
                        Some(name) => Some(name.as_str()),
                        None => None,
                    };
                    let key_name = key_name_for_ident(
                        variant.ident.clone(),
                        attrs.rename_all,
                        renamed,
                    );
                    let data = match variant.fields {
                        Some(fields) => VariantData::Named(
                            NamedFields::parse(fields, &variant_attrs),
                        ),
                        None => VariantData::Unit,
                    };
                    parsed.push(Variant { ident: variant.ident, key_name, data });
                }
                let tag = match attrs.tag {
                    TagType::Internal(tag) => tag,
                    TagType::External => vstd::pervasive::unreached(),
                };
                DerivedTypeData::Enum { tag, variants: parsed }
            },
        };
        DerivedTypeInfo {
            common: CommonDerivedTypeInfo { unknown_key: attrs.deny_unknown_fields },
            data,
        }
    }
}

} // verus!
