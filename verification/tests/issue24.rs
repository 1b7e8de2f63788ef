use jayson::{
    Data, Decoded, DeriveInput, DerivedTypeInfo, Error, FieldDeclaration, IntWidth, IntoValue, Shape,
    Tree,
    ValuePointerRef,
};

fn point() -> Shape {
    let coordinate = |ident: &str| FieldDeclaration {
        ident: ident.to_owned(),
        ty: Shape::Unsigned(IntWidth::W32),
        attrs: vec![],
    };
    Shape::Derived(DerivedTypeInfo::parse(DeriveInput {
        ident: "Point".to_owned(),
        attrs: vec![],
        data: Data::Struct(vec![coordinate("x"), coordinate("y")]),
    }))
}

fn from_str(text: &str) -> Tree {
    fn convert(json: serde_json::Value) -> Tree {
        match json {
            serde_json::Value::Null => Tree::Null,
            serde_json::Value::Bool(b) => Tree::Boolean(b),
            serde_json::Value::Number(n) => match (n.as_u64(), n.as_i64()) {
                (Some(n), _) => Tree::Integer(n),
                (None, Some(n)) => Tree::NegativeInteger(n),
                (None, None) => Tree::Float(n.as_f64().unwrap().to_bits()),
            },
            serde_json::Value::String(s) => Tree::String(s),
            serde_json::Value::Array(items) => {
                Tree::Sequence(items.into_iter().map(convert).collect())
            }
            serde_json::Value::Object(entries) => {
                Tree::Mapping(entries.into_iter().map(|(k, v)| (k, convert(v))).collect())
            }
        }
    }
    convert(serde_json::from_str(text).unwrap())
}

#[test]
fn main() {
    let value = from_str(r#"{"x": 1, "y": 2, "z": 3}"#);
    let result =
        point().deserialize_from_value::<Tree, Error>(value.into_value(), ValuePointerRef::Origin);
    assert!(result.is_ok());
    assert_eq!(result, Ok(Decoded::Struct(vec![Decoded::Unsigned(1), Decoded::Unsigned(2)])));
}
