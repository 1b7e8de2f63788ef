//! What a type's declaration says about how it is decoded.

use vstd::prelude::*;
use crate::decoded::Decoded;
use crate::error::CustomError;

verus! {

/// Where the value of a field comes from when the input lacks it.
#[derive(Debug)]
pub enum JaysonDefaultFieldAttribute {
    /// The standard default of the field's type.
    DefaultTrait,
    /// A given value.
    Function(Decoded),
}

/// The attributes of one field.
#[derive(Debug)]
pub struct FieldAttributes {
    pub rename: Option<String>,
    pub default: Option<JaysonDefaultFieldAttribute>,
    pub missing_field_error: Option<CustomError>,
}

/// One attribute of a declaration: the name that it goes by, where its path
/// is a single name, and what it holds when read as one of ours.
#[derive(Debug)]
pub struct Attribute<T> {
    pub ident: Option<String>,
    pub parsed: T,
}

impl<T> Attribute<T> {
    /// Whether the attribute goes by the name of ours.
    pub open spec fn is_ours(self) -> bool {
        self.ident matches Some(ident) && ident@ == "jayson"@
    }

    /// Whether the attribute goes by the name of ours.
    pub fn ours(&self) -> (b: bool)
        ensures
            b == self.is_ours(),
    {
        match &self.ident {
            Some(ident) => {
                let name = "jayson".to_owned();
                *ident == name
            },
            None => false,
        }
    }
}

impl FieldAttributes {
    /// These attributes with each one that `other` sets put in its place.
    pub open spec fn overwritten(self, other: FieldAttributes) -> FieldAttributes {
        FieldAttributes {
            rename: if other.rename is Some {
                other.rename
            } else {
                self.rename
            },
            default: if other.default is Some {
                other.default
            } else {
                self.default
            },
            missing_field_error: if other.missing_field_error is Some {
                other.missing_field_error
            } else {
                self.missing_field_error
            },
        }
    }

    /// Takes over each attribute that `other` sets.
    pub fn overwrite(&mut self, other: FieldAttributes)
        ensures
            *final(self) == old(self).overwritten(other),
    {
        if let Some(rename) = other.rename {
            self.rename = Some(rename)
        }
        if let Some(default) = other.default {
            self.default = Some(default)
        }
        if let Some(missing_field_error) = other.missing_field_error {
            self.missing_field_error = Some(missing_field_error)
        }
    }
}

impl Default for FieldAttributes {
    fn default() -> (attributes: FieldAttributes)
        ensures
            attributes == (FieldAttributes {
                rename: None,
                default: None,
                missing_field_error: None,
            }),
    {
        FieldAttributes { rename: None, default: None, missing_field_error: None }
    }
}

/// What the first `n` attributes of a field say, a later one of ours
/// overwriting the ones before it.
pub open spec fn field_attributes_of(
    attributes: Seq<Attribute<FieldAttributes>>,
    n: nat,
) -> FieldAttributes
    decreases n,
{
    if n == 0 {
        FieldAttributes { rename: None, default: None, missing_field_error: None }
    } else {
        let before = field_attributes_of(attributes, (n - 1) as nat);
        if attributes[n - 1].is_ours() {
            before.overwritten(attributes[n - 1].parsed)
        } else {
            before
        }
    }
}

/// Gathers what the attributes of a field say: those that do not go by our
/// name are passed over, and a later one overwrites the ones before it.
pub fn read_jayson_field_attributes(attributes: Vec<Attribute<FieldAttributes>>) -> (this:
    FieldAttributes)
    ensures
        this == field_attributes_of(attributes@, attributes@.len()),
{
    let mut attributes = attributes;
    let ghost all = attributes@;
    let mut this = FieldAttributes::default();
    let ghost mut n: nat = 0;
    while attributes.len() > 0
        invariant
            n + attributes@.len() == all.len(),
            attributes@ == all.skip(n as int),
            this == field_attributes_of(all, n),
        decreases attributes@.len(),
    {
        let attribute = attributes.remove(0);
        assert(attribute == all[n as int]);
        assert(attributes@ =~= all.skip((n + 1) as int));
        if attribute.ours() {
            this.overwrite(attribute.parsed);
        }
        proof {
            n = n + 1;
        }
    }
    this
}

/// How the names of a type's fields or variants become keys.
#[derive(Debug, Clone, Copy, PartialEq, Eq)]
pub enum RenameAll {
    CamelCase,
    LowerCase,
}

/// How an enum says which variant a value is.
#[derive(Debug, Clone, PartialEq, Eq)]
pub enum TagType {
    /// Under a key inside the mapping itself.
    Internal(String),
    External,
}

impl Default for TagType {
    fn default() -> (tag: TagType)
        ensures
            tag == TagType::External,
    {
        TagType::External
    }
}

/// What a key that names no field leads to, where such keys are refused.
#[derive(Debug, Clone, Copy, PartialEq, Eq)]
pub enum DenyUnknownFields {
    /// The error type's own report of an unknown key.
    DefaultError,
    /// A problem of the application's.
    Function(CustomError),
}

/// The attributes of a struct, an enum or a variant.
#[derive(Debug)]
pub struct JaysonDataAttributes {
    /// The tag of a variant, in place of the one that its name gives.
    pub rename: Option<String>,
    pub rename_all: Option<RenameAll>,
    pub tag: TagType,
    pub deny_unknown_fields: Option<DenyUnknownFields>,
}

impl JaysonDataAttributes {
    /// These attributes with each one that `other` sets put in its place.
    pub open spec fn overwritten(self, other: JaysonDataAttributes) -> JaysonDataAttributes {
        JaysonDataAttributes {
            rename: if other.rename is Some {
                other.rename
            } else {
                self.rename
            },
            rename_all: if other.rename_all is Some {
                other.rename_all
            } else {
                self.rename_all
            },
            tag: if other.tag is Internal {
                other.tag
            } else {
                self.tag
            },
            deny_unknown_fields: if other.deny_unknown_fields is Some {
                other.deny_unknown_fields
            } else {
                self.deny_unknown_fields
            },
        }
    }

    /// Takes over each attribute that `other` sets.
    pub fn overwrite(&mut self, other: JaysonDataAttributes)
        ensures
            *final(self) == old(self).overwritten(other),
    {
        if let Some(rename) = other.rename {
            self.rename = Some(rename)
        }
        if let Some(rename_all) = other.rename_all {
            self.rename_all = Some(rename_all)
        }
        if let TagType::Internal(x) = other.tag {
            self.tag = TagType::Internal(x)
        }
        if let Some(x) = other.deny_unknown_fields {
            self.deny_unknown_fields = Some(x)
        }
    }
}

impl Default for JaysonDataAttributes {
    fn default() -> (attributes: JaysonDataAttributes)
        ensures
            attributes == (JaysonDataAttributes {
                rename: None,
                rename_all: None,
                tag: TagType::External,
                deny_unknown_fields: None,
            }),
    {
        JaysonDataAttributes {
            rename: None,
            rename_all: None,
            tag: TagType::External,
            deny_unknown_fields: None,
        }
    }
}

/// What the first `n` attributes of a struct, an enum or a variant say, a
/// later one of ours overwriting the ones before it.
pub open spec fn data_attributes_of(
    attributes: Seq<Attribute<JaysonDataAttributes>>,
    n: nat,
) -> JaysonDataAttributes
    decreases n,
{
    if n == 0 {
        JaysonDataAttributes {
            rename: None,
            rename_all: None,
            tag: TagType::External,
            deny_unknown_fields: None,
        }
    } else {
        let before = data_attributes_of(attributes, (n - 1) as nat);
        if attributes[n - 1].is_ours() {
            before.overwritten(attributes[n - 1].parsed)
        } else {
            before
        }
    }
}

/// Gathers what the attributes of a struct, an enum or a variant say: those
/// that do not go by our name are passed over, and a later one overwrites
/// the ones before it.
pub fn read_jayson_data_attributes(attributes: Vec<Attribute<JaysonDataAttributes>>) -> (this:
    JaysonDataAttributes)
    ensures
        this == data_attributes_of(attributes@, attributes@.len()),
{
    let mut attributes = attributes;
    let ghost all = attributes@;
    let mut this = JaysonDataAttributes::default();
    let ghost mut n: nat = 0;
    while attributes.len() > 0
        invariant
            n + attributes@.len() == all.len(),
            attributes@ == all.skip(n as int),
            this == data_attributes_of(all, n),
        decreases attributes@.len(),
    {
        let attribute = attributes.remove(0);
        assert(attribute == all[n as int]);
        assert(attributes@ =~= all.skip((n + 1) as int));
        if attribute.ours() {
            this.overwrite(attribute.parsed);
        }
        proof {
            n = n + 1;
        }
    }
    this
}

} // verus!
