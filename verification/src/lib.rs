//! A value-deserialization engine.
//!
//! A format library parses text into a tree; an adapter turns that tree into
//! a [`Value`]; this crate interprets the value as typed data described by a
//! [`Shape`], reporting every problem with the path at which it was found.
//! The error type decides, problem by problem, whether decoding goes on to
//! collect more problems or stops at once.

pub mod attribute_parser;
pub mod decoded;
pub mod derive_enum;
pub mod derive_struct;
pub mod encoding;
pub mod error;
pub mod field_state;
pub mod impls;
pub mod laws;
pub mod location;
pub mod model;
pub mod parse_type;
pub mod shape;
pub mod value;

pub use attribute_parser::{
    read_jayson_data_attributes, read_jayson_field_attributes, Attribute, DenyUnknownFields,
    FieldAttributes, JaysonDataAttributes, JaysonDefaultFieldAttribute, RenameAll, TagType,
};
pub use decoded::{Decoded, DecodedView, MapKey, MapKeyView, Number};
pub use error::{CustomError, DeserializeError, Error, ErrorView, MergeWithError, Modeled};
pub use field_state::FieldState;
pub use impls::deserialize;
pub use location::{Step, ValuePointer, ValuePointerComponent, ValuePointerRef};
pub use parse_type::{
    key_name_for_ident, CommonDerivedTypeInfo, Data, DeriveInput, DerivedTypeData, DerivedTypeInfo,
    Field, FieldDeclaration, NamedFields, Variant, VariantData, VariantDeclaration,
};
pub use shape::{IntWidth, KeyShape, Shape};
pub use value::{IntoValue, Mapping, Sequence, Tree, Value, ValueKind, ValueView};
