use jayson::{
    deserialize, Attribute, CustomError, Data, Decoded, DenyUnknownFields, DeriveInput,
    DerivedTypeInfo, DeserializeError, FieldAttributes, FieldDeclaration, IntWidth, IntoValue,
    JaysonDataAttributes, JaysonDefaultFieldAttribute, Mapping, MergeWithError, Modeled, RenameAll,
    Shape,
    TagType, Value, ValueKind, ValuePointer, ValuePointerRef, VariantDeclaration,
};

#[derive(Debug, PartialEq, Eq)]
pub enum MyError {
    Unexpected(String),
    MissingField(String),
    IncorrectValueKind { accepted: Vec<ValueKind> },
    UnknownKey(String),
    CustomMissingField(u8),
}

/// The code by which a declaration asks for `unknown_field_error`.
const UNKNOWN_FIELD_ERROR: u64 = 1000;

fn unknown_field_error(k: &str) -> MyError {
    MyError::UnknownKey(k.to_owned())
}

impl Modeled for MyError {
    type Model = ();
}

impl MergeWithError<MyError> for MyError {
    fn merge(
        _prev: Option<Self>,
        other: MyError,
        _merge_location: ValuePointerRef<'_>,
    ) -> Result<Self, Self> {
        Err(other)
    }
}

impl MergeWithError<CustomError> for MyError {
    fn merge(
        _prev: Option<Self>,
        other: CustomError,
        merge_location: ValuePointerRef<'_>,
    ) -> Result<Self, Self> {
        if other.code == UNKNOWN_FIELD_ERROR {
            match merge_location {
                ValuePointerRef::Key { key, .. } => Err(unknown_field_error(key)),
                _ => Err(MyError::Unexpected("no key".to_owned())),
            }
        } else {
            Err(MyError::CustomMissingField(other.code as u8))
        }
    }
}

impl DeserializeError for MyError {
    fn location(&self) -> Option<ValuePointer> {
        None
    }

    fn incorrect_value_kind(
        _prev: Option<Self>,
        _actual: ValueKind,
        accepted: &[ValueKind],
        _location: ValuePointerRef<'_>,
    ) -> Result<Self, Self> {
        Err(Self::IncorrectValueKind { accepted: accepted.into_iter().copied().collect() })
    }

    fn missing_field(
        _prev: Option<Self>,
        field: &str,
        _location: ValuePointerRef<'_>,
    ) -> Result<Self, Self> {
        Err(Self::MissingField(field.to_owned()))
    }

    fn unknown_key(
        _prev: Option<Self>,
        key: &str,
        _accepted: &[&str],
        _location: ValuePointerRef<'_>,
    ) -> Result<Self, Self> {
        Err(Self::UnknownKey(key.to_owned()))
    }

    fn unexpected(
        _prev: Option<Self>,
        msg: &str,
        _location: ValuePointerRef<'_>,
    ) -> Result<Self, Self> {
        Err(Self::Unexpected(msg.to_owned()))
    }
}

/// A node of a parsed JSON document.
struct Json(serde_json::Value);

/// An object of a parsed JSON document.
struct JsonMap(serde_json::Map<String, serde_json::Value>);

impl Mapping for JsonMap {
    type Value = Json;

    fn len(&self) -> usize {
        self.0.len()
    }

    fn remove(&mut self, key: &str) -> Option<Json> {
        self.0.remove(key).map(Json)
    }

    fn into_iter(self) -> Vec<(String, Json)> {
        self.0.into_iter().map(|(key, value)| (key, Json(value))).collect()
    }
}

impl IntoValue for Json {
    type Sequence = Vec<Json>;
    type Mapping = JsonMap;

    fn kind(&self) -> ValueKind {
        match &self.0 {
            serde_json::Value::Null => ValueKind::Null,
            serde_json::Value::Bool(_) => ValueKind::Boolean,
            serde_json::Value::Number(n) => {
                if n.is_u64() {
                    ValueKind::Integer
                } else if n.is_i64() {
                    ValueKind::NegativeInteger
                } else {
                    ValueKind::Float
                }
            }
            serde_json::Value::String(_) => ValueKind::String,
            serde_json::Value::Array(_) => ValueKind::Sequence,
            serde_json::Value::Object(_) => ValueKind::Mapping,
        }
    }

    fn into_value(self) -> Value<Json> {
        match self.0 {
            serde_json::Value::Null => Value::Null,
            serde_json::Value::Bool(b) => Value::Boolean(b),
            serde_json::Value::Number(n) => {
                if let Some(n) = n.as_u64() {
                    Value::Integer(n)
                } else if let Some(n) = n.as_i64() {
                    Value::NegativeInteger(n)
                } else {
                    Value::Float(n.as_f64().unwrap().to_bits())
                }
            }
            serde_json::Value::String(s) => Value::String(s),
            serde_json::Value::Array(items) => {
                Value::Sequence(items.into_iter().map(Json).collect())
            }
            serde_json::Value::Object(entries) => Value::Mapping(JsonMap(entries)),
        }
    }
}

fn ours<T>(parsed: T) -> Vec<Attribute<T>> {
    vec![Attribute { ident: Some("jayson".to_owned()), parsed }]
}

fn data(
    rename_all: Option<RenameAll>,
    tag: Option<&str>,
    deny_unknown_fields: Option<DenyUnknownFields>,
) -> Vec<Attribute<JaysonDataAttributes>> {
    ours(JaysonDataAttributes {
        rename: None,
        rename_all,
        tag: match tag {
            Some(tag) => TagType::Internal(tag.to_owned()),
            None => TagType::External,
        },
        deny_unknown_fields,
    })
}

fn renamed_variant(name: &str) -> Vec<Attribute<JaysonDataAttributes>> {
    ours(JaysonDataAttributes {
        rename: Some(name.to_owned()),
        rename_all: None,
        tag: TagType::External,
        deny_unknown_fields: None,
    })
}

fn field(ident: &str, ty: Shape) -> FieldDeclaration {
    FieldDeclaration { ident: ident.to_owned(), ty, attrs: vec![] }
}

fn field_with(ident: &str, ty: Shape, attrs: FieldAttributes) -> FieldDeclaration {
    FieldDeclaration { ident: ident.to_owned(), ty, attrs: ours(attrs) }
}

fn no_attributes() -> FieldAttributes {
    FieldAttributes { rename: None, default: None, missing_field_error: None }
}

fn derived(input: DeriveInput) -> Shape {
    if let Data::Enum(_) = &input.data {
        let tagged = input.attrs.iter().any(|attribute| {
            attribute.ident.as_deref() == Some("jayson")
                && matches!(attribute.parsed.tag, TagType::Internal(_))
        });
        assert!(tagged, "an enum has to say under which key its tag lies");
    }
    Shape::Derived(DerivedTypeInfo::parse(input))
}

fn a_struct(
    ident: &str,
    attrs: Vec<Attribute<JaysonDataAttributes>>,
    fields: Vec<FieldDeclaration>,
) -> Shape {
    derived(DeriveInput { ident: ident.to_owned(), attrs, data: Data::Struct(fields) })
}

fn an_enum(
    ident: &str,
    attrs: Vec<Attribute<JaysonDataAttributes>>,
    variants: Vec<VariantDeclaration>,
) -> Shape {
    derived(DeriveInput { ident: ident.to_owned(), attrs, data: Data::Enum(variants) })
}

fn unit_variant(ident: &str) -> VariantDeclaration {
    VariantDeclaration { ident: ident.to_owned(), attrs: vec![], fields: None }
}

fn named_variant(ident: &str, fields: Vec<FieldDeclaration>) -> VariantDeclaration {
    VariantDeclaration { ident: ident.to_owned(), attrs: vec![], fields: Some(fields) }
}

fn u8_shape() -> Shape {
    Shape::Unsigned(IntWidth::W8)
}

fn optional(inner: Shape) -> Shape {
    Shape::Optional(Box::new(inner))
}

fn boxed(inner: Shape) -> Shape {
    Shape::Boxed(Box::new(inner))
}

fn string(s: &str) -> Decoded {
    Decoded::String(s.to_owned())
}

fn some(d: Decoded) -> Decoded {
    Decoded::Optional(Some(Box::new(d)))
}

fn create_default_u8() -> Decoded {
    Decoded::Unsigned(152)
}

fn create_default_option_string() -> Decoded {
    some(string("hello"))
}

fn tag() -> Shape {
    an_enum("Tag", data(None, Some("sometag"), None), vec![unit_variant("A"), unit_variant("B")])
}

fn nested() -> Shape {
    a_struct(
        "Nested",
        data(None, None, None),
        vec![
            field("y", optional(Shape::Sequence(Box::new(Shape::String)))),
            field("z", optional(Shape::String)),
        ],
    )
}

fn example() -> Shape {
    a_struct(
        "Example",
        data(None, None, None),
        vec![
            field("x", Shape::String),
            field("t1", tag()),
            field("t2", boxed(tag())),
            field("n", boxed(nested())),
        ],
    )
}

fn struct_with_default_attr() -> Shape {
    a_struct(
        "StructWithDefaultAttr",
        data(None, None, None),
        vec![
            field("x", Shape::Bool),
            field_with(
                "y",
                u8_shape(),
                FieldAttributes {
                    default: Some(JaysonDefaultFieldAttribute::Function(create_default_u8())),
                    ..no_attributes()
                },
            ),
            field_with(
                "z",
                optional(Shape::String),
                FieldAttributes {
                    default: Some(JaysonDefaultFieldAttribute::Function(
                        create_default_option_string(),
                    )),
                    ..no_attributes()
                },
            ),
        ],
    )
}

fn struct_with_trait_default_attr() -> Shape {
    a_struct(
        "StructWithTraitDefaultAttr",
        data(None, None, None),
        vec![field_with(
            "y",
            u8_shape(),
            FieldAttributes {
                default: Some(JaysonDefaultFieldAttribute::DefaultTrait),
                ..no_attributes()
            },
        )],
    )
}

fn enum_with_option_data() -> Shape {
    an_enum(
        "EnumWithOptionData",
        data(None, Some("t"), None),
        vec![
            named_variant("A", vec![field("x", optional(u8_shape()))]),
            named_variant(
                "B",
                vec![
                    field_with(
                        "x",
                        optional(Shape::String),
                        FieldAttributes {
                            default: Some(JaysonDefaultFieldAttribute::Function(
                                create_default_option_string(),
                            )),
                            ..no_attributes()
                        },
                    ),
                    field_with(
                        "y",
                        u8_shape(),
                        FieldAttributes {
                            default: Some(JaysonDefaultFieldAttribute::Function(
                                create_default_u8(),
                            )),
                            ..no_attributes()
                        },
                    ),
                ],
            ),
        ],
    )
}

fn renamed_all_camel_case_struct() -> Shape {
    a_struct(
        "RenamedAllCamelCaseStruct",
        data(Some(RenameAll::CamelCase), None, None),
        vec![field("renamed_field", Shape::Bool)],
    )
}

fn renamed_all_lower_case_struct() -> Shape {
    a_struct(
        "RenamedAllLowerCaseStruct",
        data(Some(RenameAll::LowerCase), None, None),
        vec![field("renamed_field", Shape::Bool)],
    )
}

fn renamed_all_camel_case_enum() -> Shape {
    an_enum(
        "RenamedAllCamelCaseEnum",
        data(Some(RenameAll::CamelCase), Some("t"), None),
        vec![named_variant("SomeField", vec![field("my_field", Shape::Bool)])],
    )
}

fn renamed_all_fields_camel_case_enum() -> Shape {
    an_enum(
        "RenamedAllFieldsCamelCaseEnum",
        data(None, Some("t"), None),
        vec![VariantDeclaration {
            ident: "SomeField".to_owned(),
            attrs: data(Some(RenameAll::CamelCase), None, None),
            fields: Some(vec![field("my_field", Shape::Bool)]),
        }],
    )
}

fn struct_with_renamed_field() -> Shape {
    a_struct(
        "StructWithRenamedField",
        data(None, None, None),
        vec![field_with(
            "x",
            Shape::Bool,
            FieldAttributes { rename: Some("renamed_field".to_owned()), ..no_attributes() },
        )],
    )
}

fn struct_deny_unknown_fields() -> Shape {
    a_struct(
        "StructDenyUnknownFields",
        data(None, None, Some(DenyUnknownFields::DefaultError)),
        vec![field("x", Shape::Bool)],
    )
}

fn custom_refusal() -> Option<DenyUnknownFields> {
    Some(DenyUnknownFields::Function(CustomError { code: UNKNOWN_FIELD_ERROR }))
}

fn struct_deny_unknown_fields_custom() -> Shape {
    a_struct(
        "StructDenyUnknownFieldsCustom",
        data(None, None, custom_refusal()),
        vec![field("x", Shape::Bool)],
    )
}

fn deny_variants() -> Vec<VariantDeclaration> {
    vec![
        named_variant("SomeField", vec![field("my_field", Shape::Bool)]),
        named_variant("Other", vec![field("my_field", Shape::Bool), field("y", u8_shape())]),
    ]
}

fn enum_deny_unknown_fields() -> Shape {
    an_enum(
        "EnumDenyUnknownFields",
        data(None, Some("t"), Some(DenyUnknownFields::DefaultError)),
        deny_variants(),
    )
}

fn enum_deny_unknown_fields_custom() -> Shape {
    an_enum("EnumDenyUnknownFieldsCustom", data(None, Some("t"), custom_refusal()), deny_variants())
}

fn missing_as(code: u64) -> FieldAttributes {
    FieldAttributes { missing_field_error: Some(CustomError { code }), ..no_attributes() }
}

fn struct_missing_field_error() -> Shape {
    a_struct(
        "StructMissingFieldError",
        data(None, None, None),
        vec![
            field_with("x", Shape::Bool, missing_as(0)),
            field_with("y", Shape::Bool, missing_as(1)),
        ],
    )
}

fn enum_missing_field_error() -> Shape {
    an_enum(
        "EnumMissingFieldError",
        data(None, Some("t"), None),
        vec![
            named_variant("A", vec![field_with("x", Shape::Bool, missing_as(0))]),
            named_variant("B", vec![field("x", Shape::Bool)]),
        ],
    )
}

fn enum_renamed_variant() -> Shape {
    an_enum(
        "EnumRenamedVariant",
        data(None, Some("t"), None),
        vec![
            VariantDeclaration {
                ident: "A".to_owned(),
                attrs: renamed_variant("Apple"),
                fields: Some(vec![field("x", Shape::Bool)]),
            },
            VariantDeclaration {
                ident: "B".to_owned(),
                attrs: renamed_variant("Beta"),
                fields: None,
            },
        ],
    )
}

fn enum_renamed_field() -> Shape {
    an_enum(
        "EnumRenamedField",
        data(None, Some("t"), None),
        vec![named_variant(
            "A",
            vec![field_with(
                "x",
                Shape::Bool,
                FieldAttributes { rename: Some("Xylem".to_owned()), ..no_attributes() },
            )],
        )],
    )
}

fn enum_renamed_all_variant() -> Shape {
    an_enum(
        "EnumRenamedAllVariant",
        data(None, Some("t"), None),
        vec![VariantDeclaration {
            ident: "P".to_owned(),
            attrs: data(Some(RenameAll::CamelCase), None, None),
            fields: Some(vec![field("water_potential", Shape::Bool)]),
        }],
    )
}

fn generic(a: Shape) -> Shape {
    a_struct("Generic", data(None, None, None), vec![field("some_field", a)])
}

fn decode(shape: &Shape, j: &str) -> Result<Decoded, MyError> {
    let json: serde_json::Value = serde_json::from_str(j).unwrap();
    deserialize::<Json, MyError>(shape, Json(json))
}

/// Decodes what the reference serializer writes for `x`, and holds the
/// result against `x`.
fn compare_with_serde_roundtrip(shape: Shape, serialized: &str, x: Decoded) {
    let result = decode(&shape, serialized).unwrap();

    assert_eq!(result, x);
}

/// Holds the decode of `j` against what the reference deserializer makes
/// of it: the value, or a failure.
fn compare_with_serde(shape: Shape, j: &str, actual_serde: Result<Decoded, ()>) {
    let actual_jayson = decode(&shape, j);

    match (actual_serde, actual_jayson) {
        (Ok(actual_serde), Ok(actual_jayson)) => {
            assert_eq!(actual_jayson, actual_serde);
        }
        (Err(_), Err(_)) => {}
        (Ok(_), Err(_)) => assert!(false, "jayson fails to deserialize but serde does not"),
        (Err(_), Ok(_)) => assert!(false, "serde fails to deserialize but jayson does not"),
    }
}

fn assert_error_matches(shape: Shape, j: &str, expected: MyError) {
    let actual: MyError = decode(&shape, j).unwrap_err();

    assert_eq!(actual, expected);
}

#[test]
fn test_de() {
    // arbitrary struct, roundtrip
    compare_with_serde_roundtrip(
        example(),
        r#"{"x":"X","t1":{"sometag":"A"},"t2":{"sometag":"B"},"n":{"y":["Y","Y"],"z":null}}"#,
        Decoded::Struct(vec![
            string("X"),
            Decoded::Variant(0, vec![]),
            Decoded::Boxed(Box::new(Decoded::Variant(1, vec![]))),
            Decoded::Boxed(Box::new(Decoded::Struct(vec![
                some(Decoded::Sequence(vec![string("Y"), string("Y")])),
                Decoded::Optional(None),
            ]))),
        ]),
    );

    // struct rename all camel case, roundtrip
    compare_with_serde_roundtrip(
        renamed_all_camel_case_struct(),
        r#"{"renamedField":true}"#,
        Decoded::Struct(vec![Decoded::Bool(true)]),
    );
    // struct rename all lower case, roundtrip
    compare_with_serde_roundtrip(
        renamed_all_lower_case_struct(),
        r#"{"renamed_field":true}"#,
        Decoded::Struct(vec![Decoded::Bool(true)]),
    );

    // enum rename all variants camel case, roundtrip
    compare_with_serde_roundtrip(
        renamed_all_camel_case_enum(),
        r#"{"t":"someField","my_field":true}"#,
        Decoded::Variant(0, vec![Decoded::Bool(true)]),
    );

    // struct with renamed field, roundtrip
    compare_with_serde_roundtrip(
        renamed_all_fields_camel_case_enum(),
        r#"{"t":"SomeField","myField":true}"#,
        Decoded::Variant(0, vec![Decoded::Bool(true)]),
    );

    // struct default attributes serde, roundtrip
    compare_with_serde_roundtrip(
        struct_with_default_attr(),
        r#"{"x":true,"y":1,"z":null}"#,
        Decoded::Struct(vec![Decoded::Bool(true), Decoded::Unsigned(1), Decoded::Optional(None)]),
    );

    // struct default attributes, missing field
    compare_with_serde(
        struct_with_default_attr(),
        r#"{
            "x": true,
            "y": 10
        }
        "#,
        Ok(Decoded::Struct(vec![
            Decoded::Bool(true),
            Decoded::Unsigned(10),
            create_default_option_string(),
        ])),
    );

    // struct default attribute using Default trait, missing field
    compare_with_serde(
        struct_with_trait_default_attr(),
        r#"{ }"#,
        Ok(Decoded::Struct(vec![Decoded::Unsigned(0)])),
    );

    // enum with optional data inside variant, roundtrip
    compare_with_serde_roundtrip(
        enum_with_option_data(),
        r#"{"t":"A","x":null}"#,
        Decoded::Variant(0, vec![Decoded::Optional(None)]),
    );

    // enum with optional data inside variant, missing field
    compare_with_serde(
        enum_with_option_data(),
        r#"{ "t": "A" }"#,
        Ok(Decoded::Variant(0, vec![Decoded::Optional(None)])),
    );

    // enum with optional and defaultable data inside variant, missing fields
    compare_with_serde(
        enum_with_option_data(),
        r#"{ "t": "B" }"#,
        Ok(Decoded::Variant(1, vec![create_default_option_string(), create_default_u8()])),
    );

    // enum with optional and defaultable data inside variant, all fields present
    compare_with_serde(
        enum_with_option_data(),
        r#"{
            "t": "B",
            "x": null,
            "y": 10
        }
        "#,
        Ok(Decoded::Variant(1, vec![Decoded::Optional(None), Decoded::Unsigned(10)])),
    );

    // struct with renamed field, roundtrip
    compare_with_serde_roundtrip(
        struct_with_renamed_field(),
        r#"{"renamed_field":true}"#,
        Decoded::Struct(vec![Decoded::Bool(true)]),
    );

    // struct with deny_unknown_fields, with unknown fields
    compare_with_serde(
        struct_deny_unknown_fields(),
        r#"{
            "x": true,
            "y": 8
        }
        "#,
        Err(()),
    );

    // struct with deny_unknown_fields, roundtrip
    compare_with_serde_roundtrip(
        struct_deny_unknown_fields(),
        r#"{"x":true}"#,
        Decoded::Struct(vec![Decoded::Bool(true)]),
    );

    // enum with deny_unknown_fields, with unknown fields
    compare_with_serde(
        enum_deny_unknown_fields(),
        r#"{
            "t": "SomeField",
            "my_field": true,
            "other": true
        }
        "#,
        Err(()),
    );

    // enum with deny_unknown_fields, missing tag
    compare_with_serde(
        enum_deny_unknown_fields(),
        r#"{
            "my_field": true,
            "other": true
        }
        "#,
        Err(()),
    );

    // enum with deny_unknown_fields, roundtrip 1
    compare_with_serde_roundtrip(
        enum_deny_unknown_fields(),
        r#"{"t":"SomeField","my_field":true}"#,
        Decoded::Variant(0, vec![Decoded::Bool(true)]),
    );

    // enum with deny_unknown_fields, roundtrip 2
    compare_with_serde_roundtrip(
        enum_deny_unknown_fields(),
        r#"{"t":"Other","my_field":true,"y":8}"#,
        Decoded::Variant(1, vec![Decoded::Bool(true), Decoded::Unsigned(8)]),
    );

    // struct with deny_unknown_fields with custom error function
    compare_with_serde(
        struct_deny_unknown_fields_custom(),
        r#"{
            "x": true,
            "y": 8
        }
        "#,
        Err(()),
    );

    // struct with deny_unknown_fields with custom error function
    // assert error value is correct

    assert_error_matches(
        struct_deny_unknown_fields_custom(),
        r#"{
            "x": true,
            "y": 8
        }
        "#,
        MyError::UnknownKey("y".to_owned()),
    );

    // struct with deny_unknown_fields with custom error function
    compare_with_serde(
        enum_deny_unknown_fields_custom(),
        r#"{
            "t": "SomeField",
            "my_field": true,
            "other": true
        }
        "#,
        Err(()),
    );

    // enum with deny_unknown_fields with custom error function, error check
    assert_error_matches(
        enum_deny_unknown_fields_custom(),
        r#"{
            "t": "SomeField",
            "my_field": true,
            "other": true
        }
        "#,
        MyError::UnknownKey("other".to_owned()),
    );

    // struct with custom missing field error, error check 1
    assert_error_matches(
        struct_missing_field_error(),
        r#"{
            "y": true
        }
        "#,
        MyError::CustomMissingField(0),
    );
    // struct with custom missing field error, error check 2
    assert_error_matches(
        struct_missing_field_error(),
        r#"{
            "x": true
        }
        "#,
        MyError::CustomMissingField(1),
    );

    // enum with custom missing field error, error check 1
    assert_error_matches(
        enum_missing_field_error(),
        r#"{
            "t": "A"
        }
        "#,
        MyError::CustomMissingField(0),
    );

    // enum with custom missing field error, error check 2
    assert_error_matches(
        enum_missing_field_error(),
        r#"{
            "t": "B"
        }
        "#,
        MyError::MissingField("x".to_owned()),
    );

    // enum with renamed variants, roundtrip 1
    compare_with_serde_roundtrip(
        enum_renamed_variant(),
        r#"{"t":"Apple","x":true}"#,
        Decoded::Variant(0, vec![Decoded::Bool(true)]),
    );
    // enum with renamed variants, roundtrip 2
    compare_with_serde_roundtrip(
        enum_renamed_variant(),
        r#"{"t":"Beta"}"#,
        Decoded::Variant(1, vec![]),
    );

    // enum with renamed field, roundtrip
    compare_with_serde_roundtrip(
        enum_renamed_field(),
        r#"{"t":"A","Xylem":true}"#,
        Decoded::Variant(0, vec![Decoded::Bool(true)]),
    );

    // enum with rename_all variant, roundtrip
    compare_with_serde_roundtrip(
        enum_renamed_all_variant(),
        r#"{"t":"P","waterPotential":true}"#,
        Decoded::Variant(0, vec![Decoded::Bool(true)]),
    );

    // generic no bounds, roundtrip
    compare_with_serde_roundtrip(
        generic(enum_renamed_all_variant()),
        r#"{"some_field":{"t":"P","waterPotential":true}}"#,
        Decoded::Struct(vec![Decoded::Variant(0, vec![Decoded::Bool(true)])]),
    );
}
