use jayson::{
    deserialize, Decoded, DeserializeError, Error, IntWidth, IntoValue, KeyShape, MapKey, Mapping,
    Number, Sequence, Shape, Tree, Value, ValueKind, ValuePointer, ValuePointerComponent,
    ValuePointerRef,
};

fn at(path: Vec<ValuePointerComponent>) -> ValuePointer {
    ValuePointer { path }
}

fn origin() -> ValuePointer {
    at(vec![])
}

fn key(name: &str) -> ValuePointerComponent {
    ValuePointerComponent::Key(name.to_owned())
}

fn text(s: &str) -> Tree {
    Tree::String(s.to_owned())
}

fn copy(tree: &Tree) -> Tree {
    match tree {
        Tree::Null => Tree::Null,
        Tree::Boolean(b) => Tree::Boolean(*b),
        Tree::Integer(n) => Tree::Integer(*n),
        Tree::NegativeInteger(n) => Tree::NegativeInteger(*n),
        Tree::Float(bits) => Tree::Float(*bits),
        Tree::String(s) => Tree::String(s.clone()),
        Tree::Sequence(items) => Tree::Sequence(items.iter().map(copy).collect()),
        Tree::Mapping(entries) => {
            Tree::Mapping(entries.iter().map(|(key, value)| (key.clone(), copy(value))).collect())
        }
    }
}

fn decode(shape: &Shape, value: &Tree) -> Result<Decoded, Error> {
    shape.deserialize_from_value::<Tree, Error>(copy(value).into_value(), ValuePointerRef::Origin)
}

fn out_of_range(location: ValuePointer) -> Error {
    Error::Unexpected { msg: "value out of range".to_owned(), location }
}

fn wrong_kind(actual: ValueKind, accepted: Vec<ValueKind>) -> Error {
    Error::IncorrectValueKind { actual, accepted, location: origin() }
}

#[test]
fn unit_is_decoded_from_null_only() {
    assert_eq!(decode(&Shape::Unit, &Tree::Null), Ok(Decoded::Unit));
    assert_eq!(
        decode(&Shape::Unit, &Tree::Boolean(false)),
        Err(wrong_kind(ValueKind::Boolean, vec![ValueKind::Null]))
    );
}

#[test]
fn bool_requires_the_exact_kind() {
    assert_eq!(decode(&Shape::Bool, &Tree::Boolean(true)), Ok(Decoded::Bool(true)));
    assert_eq!(
        decode(&Shape::Bool, &Tree::Integer(1)),
        Err(wrong_kind(ValueKind::Integer, vec![ValueKind::Boolean]))
    );
}

#[test]
fn string_requires_the_exact_kind() {
    assert_eq!(decode(&Shape::String, &text("abc")), Ok(Decoded::String("abc".to_owned())));
    assert_eq!(
        decode(&Shape::String, &Tree::Null),
        Err(wrong_kind(ValueKind::Null, vec![ValueKind::String]))
    );
}

#[test]
fn u8_holds_200_and_not_minus_5() {
    let shape = Shape::Unsigned(IntWidth::W8);
    assert_eq!(decode(&shape, &Tree::Integer(200)), Ok(Decoded::Unsigned(200)));
    assert_eq!(
        decode(&shape, &Tree::NegativeInteger(-5)),
        Err(wrong_kind(ValueKind::NegativeInteger, vec![ValueKind::Integer]))
    );
}

#[test]
fn unsigned_bounds_are_those_of_the_width() {
    let cases = [
        (IntWidth::W8, u8::MAX as u64),
        (IntWidth::W16, u16::MAX as u64),
        (IntWidth::W32, u32::MAX as u64),
        (IntWidth::Size, usize::MAX as u64),
    ];
    for (width, limit) in cases {
        let shape = Shape::Unsigned(width);
        assert_eq!(decode(&shape, &Tree::Integer(limit)), Ok(Decoded::Unsigned(limit)));
        if limit < u64::MAX {
            assert_eq!(decode(&shape, &Tree::Integer(limit + 1)), Err(out_of_range(origin())));
        }
    }
    assert_eq!(
        decode(&Shape::Unsigned(IntWidth::W64), &Tree::Integer(u64::MAX)),
        Ok(Decoded::Unsigned(u64::MAX))
    );
}

#[test]
fn signed_bounds_are_those_of_the_width() {
    let shape = Shape::Signed(IntWidth::W8);
    assert_eq!(decode(&shape, &Tree::Integer(127)), Ok(Decoded::Signed(127)));
    assert_eq!(decode(&shape, &Tree::Integer(128)), Err(out_of_range(origin())));
    assert_eq!(decode(&shape, &Tree::NegativeInteger(-128)), Ok(Decoded::Signed(-128)));
    assert_eq!(decode(&shape, &Tree::NegativeInteger(-129)), Err(out_of_range(origin())));
    let shape = Shape::Signed(IntWidth::W16);
    assert_eq!(decode(&shape, &Tree::Integer(32767)), Ok(Decoded::Signed(32767)));
    assert_eq!(decode(&shape, &Tree::NegativeInteger(-32769)), Err(out_of_range(origin())));
    let shape = Shape::Signed(IntWidth::W32);
    assert_eq!(decode(&shape, &Tree::Integer(1 << 31)), Err(out_of_range(origin())));
    assert_eq!(
        decode(&shape, &Tree::NegativeInteger(i32::MIN as i64)),
        Ok(Decoded::Signed(i32::MIN as i64))
    );
    let shape = Shape::Signed(IntWidth::Size);
    assert_eq!(
        decode(&shape, &Tree::Integer(isize::MAX as u64)),
        Ok(Decoded::Signed(isize::MAX as i64))
    );
}

#[test]
fn signed_refuses_magnitudes_above_its_range() {
    let shape = Shape::Signed(IntWidth::W64);
    assert_eq!(decode(&shape, &Tree::Integer(i64::MAX as u64)), Ok(Decoded::Signed(i64::MAX)));
    assert_eq!(decode(&shape, &Tree::Integer(i64::MAX as u64 + 1)), Err(out_of_range(origin())));
    assert_eq!(decode(&shape, &Tree::Integer(u64::MAX)), Err(out_of_range(origin())));
    assert_eq!(
        decode(&shape, &Tree::Float(0)),
        Err(wrong_kind(ValueKind::Float, vec![ValueKind::Integer, ValueKind::NegativeInteger]))
    );
}

#[test]
fn float_accepts_every_number() {
    let bits = 1.5f64.to_bits();
    assert_eq!(decode(&Shape::Float, &Tree::Float(bits)), Ok(Decoded::Float(Number::Float(bits))));
    assert_eq!(decode(&Shape::Float, &Tree::Integer(7)), Ok(Decoded::Float(Number::Integer(7))));
    assert_eq!(
        decode(&Shape::Float, &Tree::NegativeInteger(-7)),
        Ok(Decoded::Float(Number::NegativeInteger(-7)))
    );
    assert_eq!(
        decode(&Shape::Float, &text("1.5")),
        Err(wrong_kind(
            ValueKind::String,
            vec![ValueKind::Float, ValueKind::Integer, ValueKind::NegativeInteger]
        ))
    );
}

#[test]
fn optional_takes_null_for_none() {
    let shape = Shape::Optional(Box::new(Shape::Bool));
    assert_eq!(decode(&shape, &Tree::Null), Ok(Decoded::Optional(None)));
    assert_eq!(
        decode(&shape, &Tree::Boolean(true)),
        Ok(Decoded::Optional(Some(Box::new(Decoded::Bool(true)))))
    );
    assert_eq!(
        decode(&shape, &Tree::Integer(0)),
        Err(wrong_kind(ValueKind::Integer, vec![ValueKind::Boolean]))
    );
}

#[test]
fn optional_is_the_only_type_with_a_value_when_absent() {
    assert_eq!(Shape::Optional(Box::new(Shape::Bool)).default(), Some(Decoded::Optional(None)));
    assert_eq!(Shape::Bool.default(), None);
    assert_eq!(Shape::Boxed(Box::new(Shape::Optional(Box::new(Shape::Bool)))).default(), None);
    assert_eq!(Shape::Sequence(Box::new(Shape::Bool)).default(), None);
}

#[test]
fn boxed_wraps_what_it_delegates() {
    let shape = Shape::Boxed(Box::new(Shape::String));
    assert_eq!(
        decode(&shape, &text("x")),
        Ok(Decoded::Boxed(Box::new(Decoded::String("x".to_owned()))))
    );
    assert_eq!(
        decode(&shape, &Tree::Null),
        Err(wrong_kind(ValueKind::Null, vec![ValueKind::String]))
    );
}

#[test]
fn sequence_keeps_order_and_stops_at_first_failure() {
    let shape = Shape::Sequence(Box::new(Shape::Unsigned(IntWidth::W8)));
    let good = Tree::Sequence(vec![Tree::Integer(3), Tree::Integer(1), Tree::Integer(2)]);
    assert_eq!(
        decode(&shape, &good),
        Ok(Decoded::Sequence(vec![
            Decoded::Unsigned(3),
            Decoded::Unsigned(1),
            Decoded::Unsigned(2)
        ]))
    );
    assert_eq!(decode(&shape, &Tree::Sequence(vec![])), Ok(Decoded::Sequence(vec![])));
    let bad = Tree::Sequence(vec![Tree::Integer(3), Tree::Integer(256), Tree::Null]);
    assert_eq!(
        decode(&shape, &bad),
        Err(out_of_range(at(vec![ValuePointerComponent::Index(1)])))
    );
    assert_eq!(
        decode(&shape, &Tree::Mapping(vec![])),
        Err(wrong_kind(ValueKind::Mapping, vec![ValueKind::Sequence]))
    );
}

#[test]
fn tuple_of_two_refuses_three_items_as_unexpected() {
    let shape = Shape::Tuple(vec![Shape::Bool, Shape::String]);
    let three = Tree::Sequence(vec![Tree::Boolean(true), text("a"), Tree::Null]);
    assert_eq!(
        decode(&shape, &three),
        Err(Error::Unexpected { msg: "invalid sequence length".to_owned(), location: origin() })
    );
    let one = Tree::Sequence(vec![Tree::Boolean(true)]);
    assert!(matches!(decode(&shape, &one), Err(Error::Unexpected { .. })));
    let two = Tree::Sequence(vec![Tree::Boolean(true), text("a")]);
    assert_eq!(
        decode(&shape, &two),
        Ok(Decoded::Tuple(vec![Decoded::Bool(true), Decoded::String("a".to_owned())]))
    );
    assert_eq!(
        decode(&shape, &Tree::Null),
        Err(wrong_kind(ValueKind::Null, vec![ValueKind::Sequence]))
    );
}

#[test]
fn tuple_of_three_decodes_each_item_as_its_own_shape() {
    let shape = Shape::Tuple(vec![Shape::Bool, Shape::String, Shape::Unsigned(IntWidth::W8)]);
    let value = Tree::Sequence(vec![Tree::Boolean(false), text("b"), Tree::Integer(9)]);
    assert_eq!(
        decode(&shape, &value),
        Ok(Decoded::Tuple(vec![
            Decoded::Bool(false),
            Decoded::String("b".to_owned()),
            Decoded::Unsigned(9)
        ]))
    );
    let value = Tree::Sequence(vec![Tree::Boolean(false), text("b"), text("c")]);
    assert_eq!(
        decode(&shape, &value),
        Err(Error::IncorrectValueKind {
            actual: ValueKind::String,
            accepted: vec![ValueKind::Integer],
            location: at(vec![ValuePointerComponent::Index(2)]),
        })
    );
}

#[test]
fn mapping_with_string_keys() {
    let shape = Shape::Mapping(KeyShape::String, Box::new(Shape::Bool));
    let value = Tree::Mapping(vec![
        ("b".to_owned(), Tree::Boolean(true)),
        ("a".to_owned(), Tree::Boolean(false)),
    ]);
    assert_eq!(
        decode(&shape, &value),
        Ok(Decoded::Mapping(vec![
            (MapKey::String("b".to_owned()), Decoded::Bool(true)),
            (MapKey::String("a".to_owned()), Decoded::Bool(false)),
        ]))
    );
    assert_eq!(
        decode(&shape, &Tree::Sequence(vec![])),
        Err(wrong_kind(ValueKind::Sequence, vec![ValueKind::Mapping]))
    );
}

#[test]
fn mapping_key_that_does_not_parse_fails_the_whole_mapping() {
    let shape = Shape::Mapping(KeyShape::Unsigned(IntWidth::W8), Box::new(Shape::Bool));
    let value = Tree::Mapping(vec![
        ("1".to_owned(), Tree::Boolean(true)),
        ("one".to_owned(), Tree::Boolean(false)),
    ]);
    assert_eq!(
        decode(&shape, &value),
        Err(Error::Unexpected {
            msg: "cannot parse map key".to_owned(),
            location: at(vec![key("one")])
        })
    );
}

#[test]
fn mapping_keys_are_parsed_as_decimal_numbers() {
    let shape = Shape::Mapping(KeyShape::Unsigned(IntWidth::W8), Box::new(Shape::String));
    let entry = |k: &str| Tree::Mapping(vec![(k.to_owned(), text("v"))]);
    let parsed = |n: u64| {
        Ok(Decoded::Mapping(vec![(MapKey::Unsigned(n), Decoded::String("v".to_owned()))]))
    };
    assert_eq!(decode(&shape, &entry("0")), parsed(0));
    assert_eq!(decode(&shape, &entry("255")), parsed(255));
    assert_eq!(decode(&shape, &entry("+7")), parsed(7));
    assert_eq!(decode(&shape, &entry("007")), parsed(7));
    for bad in ["", "+", "-1", "256", "1 ", " 1", "1.0", "0x1", "99999999999999999999999"] {
        assert!(
            matches!(decode(&shape, &entry(bad)), Err(Error::Unexpected { .. })),
            "{:?}",
            bad
        );
    }
    let wide = Shape::Mapping(KeyShape::Unsigned(IntWidth::W64), Box::new(Shape::String));
    assert_eq!(decode(&wide, &entry("18446744073709551615")), parsed(u64::MAX));
    assert!(matches!(
        decode(&wide, &entry("18446744073709551616")),
        Err(Error::Unexpected { .. })
    ));
}

#[test]
fn mapping_keys_may_be_negative_numbers() {
    let shape = Shape::Mapping(KeyShape::Signed(IntWidth::W8), Box::new(Shape::String));
    let entry = |k: &str| Tree::Mapping(vec![(k.to_owned(), text("v"))]);
    let parsed = |n: i64| {
        Ok(Decoded::Mapping(vec![(MapKey::Signed(n), Decoded::String("v".to_owned()))]))
    };
    assert_eq!(decode(&shape, &entry("0")), parsed(0));
    assert_eq!(decode(&shape, &entry("-0")), parsed(0));
    assert_eq!(decode(&shape, &entry("-1")), parsed(-1));
    assert_eq!(decode(&shape, &entry("+3")), parsed(3));
    assert_eq!(decode(&shape, &entry("127")), parsed(127));
    assert_eq!(decode(&shape, &entry("-128")), parsed(-128));
    assert_eq!(decode(&shape, &entry("-0128")), parsed(-128));
    for bad in ["", "-", "+", "128", "-129", "-+1", "+-1", "--1", "1-", "- 1"] {
        assert!(
            matches!(decode(&shape, &entry(bad)), Err(Error::Unexpected { .. })),
            "{:?}",
            bad
        );
    }
    let wide = Shape::Mapping(KeyShape::Signed(IntWidth::W64), Box::new(Shape::String));
    assert_eq!(decode(&wide, &entry("-9223372036854775808")), parsed(i64::MIN));
    assert_eq!(decode(&wide, &entry("9223372036854775807")), parsed(i64::MAX));
    assert!(matches!(
        decode(&wide, &entry("-9223372036854775809")),
        Err(Error::Unexpected { .. })
    ));
    assert!(matches!(
        decode(&wide, &entry("9223372036854775808")),
        Err(Error::Unexpected { .. })
    ));
}

#[test]
fn keys_parse_as_the_standard_library_parses_them() {
    let texts = [
        "", "+", "-", "0", "-0", "+0", "00", "7", "+7", "-7", "255", "256", "-128", "-129", "1e3",
        "٣", "1_000", " 1", "1 ", "++1", "-+1", "127", "128", "65535", "65536",
    ];
    for text in texts {
        assert_eq!(
            KeyShape::Unsigned(IntWidth::W8).parse(text),
            text.parse::<u8>().ok().map(|n| MapKey::Unsigned(n as u64)),
            "{:?}",
            text
        );
        assert_eq!(
            KeyShape::Unsigned(IntWidth::W16).parse(text),
            text.parse::<u16>().ok().map(|n| MapKey::Unsigned(n as u64)),
            "{:?}",
            text
        );
        assert_eq!(
            KeyShape::Signed(IntWidth::W8).parse(text),
            text.parse::<i8>().ok().map(|n| MapKey::Signed(n as i64)),
            "{:?}",
            text
        );
        assert_eq!(
            KeyShape::Signed(IntWidth::W64).parse(text),
            text.parse::<i64>().ok().map(MapKey::Signed),
            "{:?}",
            text
        );
        assert_eq!(KeyShape::String.parse(text), Some(MapKey::String(text.to_owned())));
    }
}

#[test]
fn mapping_later_entry_takes_the_place_of_an_earlier_one() {
    let shape = Shape::Mapping(KeyShape::Unsigned(IntWidth::W8), Box::new(Shape::Bool));
    let value = Tree::Mapping(vec![
        ("1".to_owned(), Tree::Boolean(true)),
        ("2".to_owned(), Tree::Boolean(true)),
        ("+1".to_owned(), Tree::Boolean(false)),
    ]);
    assert_eq!(
        decode(&shape, &value),
        Ok(Decoded::Mapping(vec![
            (MapKey::Unsigned(1), Decoded::Bool(false)),
            (MapKey::Unsigned(2), Decoded::Bool(true)),
        ]))
    );
}

#[test]
fn mapping_value_failure_is_located_under_its_key() {
    let shape = Shape::Mapping(
        KeyShape::String,
        Box::new(Shape::Sequence(Box::new(Shape::Bool))),
    );
    let value = Tree::Mapping(vec![(
        "k".to_owned(),
        Tree::Sequence(vec![Tree::Boolean(true), Tree::Null]),
    )]);
    assert_eq!(
        decode(&shape, &value),
        Err(Error::IncorrectValueKind {
            actual: ValueKind::Null,
            accepted: vec![ValueKind::Boolean],
            location: at(vec![key("k"), ValuePointerComponent::Index(1)]),
        })
    );
}

#[test]
fn decoding_twice_gives_the_same() {
    let shape = Shape::Sequence(Box::new(Shape::Optional(Box::new(Shape::Signed(IntWidth::W8)))));
    let value = Tree::Sequence(vec![Tree::Null, Tree::NegativeInteger(-3), Tree::Integer(300)]);
    assert_eq!(decode(&shape, &value), decode(&shape, &value));
    let value = Tree::Sequence(vec![Tree::Null, Tree::NegativeInteger(-3)]);
    let first = decode(&shape, &value);
    assert!(first.is_ok());
    assert_eq!(first, decode(&shape, &value));
}

#[test]
fn entry_point_starts_at_the_origin() {
    let shape = Shape::Sequence(Box::new(Shape::Bool));
    let r: Result<Decoded, Error> =
        deserialize(&shape, Tree::Sequence(vec![Tree::Boolean(true)]));
    assert_eq!(r, Ok(Decoded::Sequence(vec![Decoded::Bool(true)])));
    let r: Result<Decoded, Error> = deserialize(&shape, Tree::Sequence(vec![Tree::Null]));
    let e = r.unwrap_err();
    assert_eq!(e.location(), Some(at(vec![ValuePointerComponent::Index(0)])));
}

#[test]
fn kind_names_the_variant_that_into_value_produces() {
    let trees = vec![
        (Tree::Null, ValueKind::Null),
        (Tree::Boolean(true), ValueKind::Boolean),
        (Tree::Integer(1), ValueKind::Integer),
        (Tree::NegativeInteger(-1), ValueKind::NegativeInteger),
        (Tree::Float(0), ValueKind::Float),
        (text(""), ValueKind::String),
        (Tree::Sequence(vec![]), ValueKind::Sequence),
        (Tree::Mapping(vec![]), ValueKind::Mapping),
    ];
    for (tree, kind) in trees {
        assert_eq!(tree.kind(), kind);
        assert_eq!(tree.into_value().kind(), kind);
    }
}

#[test]
fn into_value_hands_over_what_lies_below() {
    let tree = Tree::Sequence(vec![Tree::Null, text("a")]);
    match tree.into_value() {
        Value::Sequence(sequence) => {
            assert_eq!(Sequence::len(&sequence), 2);
            assert_eq!(Sequence::into_iter(sequence), vec![Tree::Null, text("a")]);
        }
        _ => panic!("a sequence stays a sequence"),
    }
    let tree = Tree::Mapping(vec![("k".to_owned(), Tree::Integer(1))]);
    match tree.into_value() {
        Value::Mapping(mapping) => {
            assert_eq!(Mapping::len(&mapping), 1);
            assert_eq!(Mapping::into_iter(mapping), vec![("k".to_owned(), Tree::Integer(1))]);
        }
        _ => panic!("a mapping stays a mapping"),
    }
    assert!(matches!(Tree::Integer(7).into_value(), Value::Integer(7)));
    assert!(matches!(Tree::Float(9).into_value(), Value::Float(9)));
}

#[test]
fn remove_takes_out_the_first_entry_under_the_key() {
    let mut mapping = vec![
        ("a".to_owned(), Tree::Integer(1)),
        ("b".to_owned(), Tree::Integer(2)),
        ("a".to_owned(), Tree::Integer(3)),
    ];
    assert_eq!(Mapping::remove(&mut mapping, "a"), Some(Tree::Integer(1)));
    assert_eq!(
        mapping,
        vec![("b".to_owned(), Tree::Integer(2)), ("a".to_owned(), Tree::Integer(3))]
    );
    assert_eq!(Mapping::remove(&mut mapping, "c"), None);
    assert_eq!(Mapping::len(&mapping), 2);
    assert_eq!(Mapping::remove(&mut mapping, "a"), Some(Tree::Integer(3)));
    assert_eq!(Mapping::remove(&mut mapping, "a"), None);
    assert_eq!(mapping, vec![("b".to_owned(), Tree::Integer(2))]);
}

#[test]
fn round_trip_of_a_nested_value() {
    let shape = Shape::Tuple(vec![
        Shape::Mapping(KeyShape::Unsigned(IntWidth::W16), Box::new(Shape::Signed(IntWidth::W8))),
        Shape::Optional(Box::new(Shape::Sequence(Box::new(Shape::Float)))),
        Shape::Boxed(Box::new(Shape::Unit)),
    ]);
    let encoded = Tree::Sequence(vec![
        Tree::Mapping(vec![
            ("10".to_owned(), Tree::NegativeInteger(-1)),
            ("300".to_owned(), Tree::Integer(5)),
        ]),
        Tree::Sequence(vec![Tree::Float(2.5f64.to_bits()), Tree::Integer(4)]),
        Tree::Null,
    ]);
    let value = Decoded::Tuple(vec![
        Decoded::Mapping(vec![
            (MapKey::Unsigned(10), Decoded::Signed(-1)),
            (MapKey::Unsigned(300), Decoded::Signed(5)),
        ]),
        Decoded::Optional(Some(Box::new(Decoded::Sequence(vec![
            Decoded::Float(Number::Float(2.5f64.to_bits())),
            Decoded::Float(Number::Integer(4)),
        ])))),
        Decoded::Boxed(Box::new(Decoded::Unit)),
    ]);
    assert_eq!(decode(&shape, &encoded), Ok(value));
}
