//! The decoders of the built-in types: scalars, optional and boxed values,
//! sequences, tuples and mappings.

use vstd::prelude::*;
use crate::decoded::{
    decoded_entries_view, decoded_items_view, Decoded, DecodedView, MapKey, MapKeyView, Number,
};
use crate::derive_enum::deserialize_tagged_enum;
use crate::derive_struct::deserialize_struct;
use crate::error::DeserializeError;
use crate::location::{Step, ValuePointerRef};
use crate::model::{
    decoded, decoded_entries, decoded_items, decoded_tuple, decoded_whole_tuple, digit_value,
    digits_value, is_digit,
    keys_of, mismatch, outcome, parsed_signed, parsed_unsigned, unexpected,
};
use crate::parse_type::DerivedTypeData;
use crate::shape::{IntWidth, KeyShape, Shape};
use crate::value::{entries_view, items_view, IntoValue, Mapping, Sequence, Value, ValueKind, ValueView};

verus! {

/// The error for a value of the wrong kind, whichever verdict the error
/// type gives.
pub fn incorrect_kind<V: IntoValue, E: DeserializeError>(
    value: Value<V>,
    accepted: &[ValueKind],
    location: ValuePointerRef<'_>,
) -> (e: E)
    ensures
        e.model() == mismatch::<E>(value@, accepted@, location@),
{
    match E::incorrect_value_kind(None, value.kind(), accepted, location) {
        Ok(e) => e,
        Err(e) => e,
    }
}

/// The error for a problem with a message, whichever verdict the error type
/// gives.
pub fn unexpected_error<E: DeserializeError>(msg: &str, location: ValuePointerRef<'_>) -> (e: E)
    ensures
        e.model() == unexpected::<E>(msg@, location@),
{
    match E::unexpected(None, msg, location) {
        Ok(e) => e,
        Err(e) => e,
    }
}

/// Decodes the unit value: null and nothing else.
pub fn deserialize_unit<V: IntoValue, E: DeserializeError>(
    value: Value<V>,
    location: ValuePointerRef<'_>,
) -> (r: Result<(), E>)
    ensures
        (match r {
            Ok(_) => Ok(DecodedView::Unit),
            Err(e) => Err(e.model()),
        }) == decoded::<E>(Shape::Unit, value@, location@),
{
    match value {
        Value::Null => Ok(()),
        v => {
            let accepted = [ValueKind::Null];
            assert(accepted@ =~= seq![ValueKind::Null]);
            Err(incorrect_kind(v, &accepted, location))
        },
    }
}

/// Decodes a boolean: the kind must match exactly.
pub fn deserialize_bool<V: IntoValue, E: DeserializeError>(
    value: Value<V>,
    location: ValuePointerRef<'_>,
) -> (r: Result<bool, E>)
    ensures
        (match r {
            Ok(b) => Ok(DecodedView::Bool(b)),
            Err(e) => Err(e.model()),
        }) == decoded::<E>(Shape::Bool, value@, location@),
{
    match value {
        Value::Boolean(b) => Ok(b),
        v => {
            let accepted = [ValueKind::Boolean];
            assert(accepted@ =~= seq![ValueKind::Boolean]);
            Err(incorrect_kind(v, &accepted, location))
        },
    }
}

/// Decodes an unsigned integer of the given width: a non-negative integer
/// that the type holds.
pub fn deserialize_unsigned<V: IntoValue, E: DeserializeError>(
    width: IntWidth,
    value: Value<V>,
    location: ValuePointerRef<'_>,
) -> (r: Result<u64, E>)
    ensures
        (match r {
            Ok(n) => Ok(DecodedView::Unsigned(n)),
            Err(e) => Err(e.model()),
        }) == decoded::<E>(Shape::Unsigned(width), value@, location@),
{
    match value {
        Value::Integer(n) => {
            if width.fits_unsigned(n) {
                Ok(n)
            } else {
                Err(unexpected_error("value out of range", location))
            }
        },
        v => {
            let accepted = [ValueKind::Integer];
            assert(accepted@ =~= seq![ValueKind::Integer]);
            Err(incorrect_kind(v, &accepted, location))
        },
    }
}

/// Decodes a signed integer of the given width, from a non-negative or a
/// negative integer that the type holds.
pub fn deserialize_signed<V: IntoValue, E: DeserializeError>(
    width: IntWidth,
    value: Value<V>,
    location: ValuePointerRef<'_>,
) -> (r: Result<i64, E>)
    ensures
        (match r {
            Ok(n) => Ok(DecodedView::Signed(n)),
            Err(e) => Err(e.model()),
        }) == decoded::<E>(Shape::Signed(width), value@, location@),
{
    match value {
        Value::Integer(n) => {
            if n <= i64::MAX as u64 && width.fits_signed(n as i64) {
                Ok(n as i64)
            } else {
                Err(unexpected_error("value out of range", location))
            }
        },
        Value::NegativeInteger(n) => {
            if width.fits_signed(n) {
                Ok(n)
            } else {
                Err(unexpected_error("value out of range", location))
            }
        },
        v => {
            let accepted = [ValueKind::Integer, ValueKind::NegativeInteger];
            assert(accepted@ =~= seq![ValueKind::Integer, ValueKind::NegativeInteger]);
            Err(incorrect_kind(v, &accepted, location))
        },
    }
}

/// Decodes the source of a float: any number, as the input held it.
pub fn deserialize_float<V: IntoValue, E: DeserializeError>(
    value: Value<V>,
    location: ValuePointerRef<'_>,
) -> (r: Result<Number, E>)
    ensures
        (match r {
            Ok(n) => Ok(DecodedView::Float(n)),
            Err(e) => Err(e.model()),
        }) == decoded::<E>(Shape::Float, value@, location@),
{
    match value {
        Value::Integer(n) => Ok(Number::Integer(n)),
        Value::NegativeInteger(n) => Ok(Number::NegativeInteger(n)),
        Value::Float(bits) => Ok(Number::Float(bits)),
        v => {
            let accepted = [ValueKind::Float, ValueKind::Integer, ValueKind::NegativeInteger];
            assert(accepted@ =~= seq![
                ValueKind::Float,
                ValueKind::Integer,
                ValueKind::NegativeInteger,
            ]);
            Err(incorrect_kind(v, &accepted, location))
        },
    }
}

/// Decodes a string: the kind must match exactly.
pub fn deserialize_string<V: IntoValue, E: DeserializeError>(
    value: Value<V>,
    location: ValuePointerRef<'_>,
) -> (r: Result<String, E>)
    ensures
        (match r {
            Ok(s) => Ok(DecodedView::String(s@)),
            Err(e) => Err(e.model()),
        }) == decoded::<E>(Shape::String, value@, location@),
{
    match value {
        Value::String(s) => Ok(s),
        v => {
            let accepted = [ValueKind::String];
            assert(accepted@ =~= seq![ValueKind::String]);
            Err(incorrect_kind(v, &accepted, location))
        },
    }
}

/// The value of a run of digits is no less than that of any run it begins
/// with.
pub proof fn lemma_digits_value_grows(digits: Seq<char>, k: int)
    requires
        0 <= k <= digits.len(),
    ensures
        digits_value(digits.take(k)) <= digits_value(digits),
    decreases digits.len() - k,
{
    if k < digits.len() {
        lemma_digits_value_grows(digits.drop_last(), k);
        assert(digits.drop_last().take(k) =~= digits.take(k));
    } else {
        assert(digits.take(k) =~= digits);
    }
}

/// Parses a number no greater than `limit` from its decimal text.
pub fn parse_unsigned(text: &str, limit: u64) -> (r: Option<u64>)
    ensures
        r == (match parsed_unsigned(text@) {
            Some(n) => if n <= limit {
                Some(n as u64)
            } else {
                None
            },
            None => None,
        }),
{
    let len = text.unicode_len();
    let mut i: usize = 0;
    if len > 0 && text.get_char(0) == '+' {
        i = 1;
    }
    let start = i;
    let ghost digits = text@.subrange(start as int, len as int);
    assert(digits =~= if text@.len() > 0 && text@[0] == '+' {
        text@.drop_first()
    } else {
        text@
    });
    if i == len {
        return None;
    }
    let mut acc: u64 = 0;
    assert(digits.take(0) =~= Seq::<char>::empty());
    while i < len
        invariant
            start <= i <= len,
            len == text@.len(),
            digits == text@.subrange(start as int, len as int),
            digits == (if text@.len() > 0 && text@[0] == '+' {
                text@.drop_first()
            } else {
                text@
            }),
            forall|j: int| 0 <= j < i - start ==> is_digit(#[trigger] digits[j]),
            acc == digits_value(digits.take(i - start)),
            acc <= limit,
        decreases len - i,
    {
        let c = text.get_char(i);
        if !(c >= '0' && c <= '9') {
            proof {
                assert(!is_digit(digits[i - start]));
            }
            return None;
        }
        let d: u64 = (c as u32 - '0' as u32) as u64;
        assert(d == digit_value(c));
        proof {
            let next = digits.take(i - start + 1);
            assert(next.drop_last() =~= digits.take(i - start));
            assert(next.last() == c);
            assert(digits_value(next) == acc * 10 + d);
            lemma_digits_value_grows(digits, i - start + 1);
        }
        if acc > limit / 10 || d > limit - acc * 10 {
            proof {
                assert(digits_value(digits) > limit);
            }
            return None;
        }
        acc = acc * 10 + d;
        i += 1;
    }
    assert(digits.take(i - start) =~= digits);
    Some(acc)
}

/// Parses a number between `-limit - 1` and `limit` from its decimal text.
pub fn parse_signed(text: &str, limit: i64) -> (r: Option<i64>)
    ensures
        r == (match parsed_signed(text@) {
            Some(n) => if -limit - 1 <= n <= limit {
                Some(n as i64)
            } else {
                None
            },
            None => None,
        }),
{
    if limit < 0 {
        return None;
    }
    let len = text.unicode_len();
    if len > 0 && text.get_char(0) == '-' {
        let digits = text.substring_char(1, len);
        assert(digits@ =~= text@.drop_first());
        if len > 1 && digits.get_char(0) == '+' {
            assert(!is_digit(digits@[0]));
            return None;
        }
        match parse_unsigned(digits, limit as u64 + 1) {
            Some(magnitude) => {
                if magnitude == limit as u64 + 1 {
                    Some(-limit - 1)
                } else {
                    Some(-(magnitude as i64))
                }
            },
            None => None,
        }
    } else {
        match parse_unsigned(text, limit as u64) {
            Some(n) => Some(n as i64),
            None => None,
        }
    }
}

impl KeyShape {
    /// Parses the text of a key as a key of this type.
    pub fn parse(&self, text: &str) -> (key: Option<MapKey>)
        ensures
            (match key {
                Some(k) => Some(k@),
                None => None,
            }) == self.parsed(text@),
    {
        match self {
            KeyShape::String => Some(MapKey::String(text.to_owned())),
            KeyShape::Unsigned(width) => match parse_unsigned(text, width.unsigned_bound()) {
                Some(n) => Some(MapKey::Unsigned(n)),
                None => None,
            },
            KeyShape::Signed(width) => match parse_signed(text, width.signed_bound()) {
                Some(n) => Some(MapKey::Signed(n)),
                None => None,
            },
        }
    }
}

/// What a decode of several values returned, as contracts see it.
pub open spec fn items_outcome<E: DeserializeError>(r: Result<Vec<Decoded>, E>) -> Result<
    Seq<DecodedView>,
    E::Model,
> {
    match r {
        Ok(items) => Ok(decoded_items_view(items@)),
        Err(e) => Err(e.model()),
    }
}

/// What a decode of a mapping returned, as contracts see it.
pub open spec fn entries_outcome<E: DeserializeError>(r: Result<Vec<(MapKey, Decoded)>, E>) -> Result<
    Seq<(MapKeyView, DecodedView)>,
    E::Model,
> {
    match r {
        Ok(entries) => Ok(decoded_entries_view(entries@)),
        Err(e) => Err(e.model()),
    }
}

/// An element is first found at `i` where it is at `i` and nowhere before.
pub proof fn lemma_first_index<T>(s: Seq<T>, x: T, i: int)
    requires
        0 <= i < s.len(),
        s[i] == x,
        forall|j: int| 0 <= j < i ==> s[j] != x,
    ensures
        s.index_of_first(x) == Some(i),
{
    s.index_of_first_ensures(x);
    assert(s.contains(x));
}

/// An element is not found where it is nowhere.
pub proof fn lemma_no_index<T>(s: Seq<T>, x: T)
    requires
        forall|j: int| 0 <= j < s.len() ==> s[j] != x,
    ensures
        s.index_of_first(x) is None,
{
    s.index_of_first_ensures(x);
}

/// Once an item has failed, the items after it change nothing.
pub proof fn lemma_items_stay_failed<E: DeserializeError>(
    inner: Shape,
    items: Seq<ValueView>,
    location: Seq<Step>,
    n: nat,
    m: nat,
)
    requires
        n <= m,
    ensures
        decoded_items::<E>(inner, items, location, n) is Err ==> decoded_items::<E>(
            inner,
            items,
            location,
            m,
        ) == decoded_items::<E>(inner, items, location, n),
    decreases m,
{
    if n < m {
        lemma_items_stay_failed::<E>(inner, items, location, n, (m - 1) as nat);
    }
}

/// Once an item of a tuple has failed, the items after it change nothing.
pub proof fn lemma_tuple_stays_failed<E: DeserializeError>(
    shapes: Vec<Shape>,
    items: Seq<ValueView>,
    location: Seq<Step>,
    n: nat,
    m: nat,
)
    requires
        n <= m <= shapes.len(),
    ensures
        decoded_tuple::<E>(shapes, items, location, n) is Err ==> decoded_tuple::<E>(
            shapes,
            items,
            location,
            m,
        ) == decoded_tuple::<E>(shapes, items, location, n),
    decreases m,
{
    if n < m {
        lemma_tuple_stays_failed::<E>(shapes, items, location, n, (m - 1) as nat);
    }
}

/// Once an entry has failed, the entries after it change nothing.
pub proof fn lemma_entries_stay_failed<E: DeserializeError>(
    key: KeyShape,
    inner: Shape,
    entries: Seq<(Seq<char>, ValueView)>,
    location: Seq<Step>,
    n: nat,
    m: nat,
)
    requires
        n <= m,
    ensures
        decoded_entries::<E>(key, inner, entries, location, n) is Err ==> decoded_entries::<E>(
            key,
            inner,
            entries,
            location,
            m,
        ) == decoded_entries::<E>(key, inner, entries, location, n),
    decreases m,
{
    if n < m {
        lemma_entries_stay_failed::<E>(key, inner, entries, location, n, (m - 1) as nat);
    }
}

/// The index of the entry that has the key, if one has it.
pub fn find_key(entries: &Vec<(MapKey, Decoded)>, key: &MapKey) -> (found: Option<usize>)
    ensures
        (match found {
            Some(i) => Some(i as int),
            None => None,
        }) == keys_of(decoded_entries_view(entries@)).index_of_first(key@),
        found matches Some(i) ==> i < entries.len(),
{
    let ghost keys = keys_of(decoded_entries_view(entries@));
    let mut i: usize = 0;
    while i < entries.len()
        invariant
            i <= entries.len(),
            keys == keys_of(decoded_entries_view(entries@)),
            forall|j: int| 0 <= j < i ==> keys[j] != key@,
        decreases entries.len() - i,
    {
        if entries[i].0.same(key) {
            proof {
                lemma_first_index(keys, key@, i as int);
            }
            return Some(i);
        }
        i += 1;
    }
    proof {
        lemma_no_index(keys, key@);
    }
    None
}

/// The same items, the last one first.
pub fn reversed<T>(items: Vec<T>) -> (turned: Vec<T>)
    ensures
        turned@.len() == items@.len(),
        forall|k: int| 0 <= k < items@.len() ==> turned@[k] == items@[items@.len() - 1 - k],
{
    let mut items = items;
    let ghost all = items@;
    let mut turned: Vec<T> = Vec::with_capacity(items.len());
    while items.len() > 0
        invariant
            items@.len() + turned@.len() == all.len(),
            items@ == all.take(items@.len() as int),
            forall|k: int| 0 <= k < turned@.len() ==> turned@[k] == all[all.len() - 1 - k],
        decreases items@.len(),
    {
        let last = items.pop().unwrap();
        assert(items@ =~= all.take(items@.len() as int));
        turned.push(last);
    }
    turned
}

/// Decodes the items of a sequence, each as `inner`, in order. The first
/// item that fails ends the decode with its error.
pub fn deserialize_items<V: IntoValue, E: DeserializeError>(
    inner: &Shape,
    sequence: V::Sequence,
    location: ValuePointerRef<'_>,
) -> (r: Result<Vec<Decoded>, E>)
    ensures
        items_outcome(r) == decoded_items::<E>(
            *inner,
            items_view(sequence.items()),
            location@,
            sequence.items().len(),
        ),
    decreases *inner, 1nat,
{
    let mut out: Vec<Decoded> = Vec::with_capacity(Sequence::len(&sequence));
    let ghost all = sequence.items();
    let ghost input = items_view(all);
    let mut rest = reversed(Sequence::into_iter(sequence));
    let mut i: usize = 0;
    assert(decoded_items_view(out@) =~= Seq::empty());
    while rest.len() > 0
        invariant
            i + rest@.len() == all.len(),
            all.len() <= usize::MAX,
            all == sequence.items(),
            input == items_view(all),
            forall|k: int| 0 <= k < rest@.len() ==> rest@[k] == all[all.len() - 1 - k],
            decoded_items::<E>(*inner, input, location@, i as nat) == Ok::<
                Seq<DecodedView>,
                E::Model,
            >(decoded_items_view(out@)),
        decreases rest@.len(),
    {
        let item = rest.pop().unwrap();
        assert(item == all[i as int]);
        assert(input[i as int] == item.value());
        let here = location.push_index(i);
        let ghost before = decoded_items_view(out@);
        match inner.deserialize_from_value::<V, E>(item.into_value(), here) {
            Ok(d) => {
                out.push(d);
                assert(decoded_items_view(out@) =~= before.push(d@));
            },
            Err(e) => {
                proof {
                    lemma_items_stay_failed::<E>(
                        *inner,
                        input,
                        location@,
                        (i + 1) as nat,
                        all.len(),
                    );
                }
                return Err(e);
            },
        }
        i += 1;
    }
    Ok(out)
}

/// Decodes the items of a sequence as a tuple: there have to be exactly as
/// many items as shapes, and each is decoded as the shape at its own index.
/// A sequence of another length is an unexpected problem; the first item
/// that fails ends the decode with its error.
pub fn deserialize_tuple<V: IntoValue, E: DeserializeError>(
    shapes: &Vec<Shape>,
    sequence: V::Sequence,
    location: ValuePointerRef<'_>,
) -> (r: Result<Vec<Decoded>, E>)
    ensures
        items_outcome(r) == decoded_whole_tuple::<E>(
            *shapes,
            items_view(sequence.items()),
            location@,
        ),
    decreases *shapes, 0nat,
{
    if Sequence::len(&sequence) != shapes.len() {
        return Err(unexpected_error("invalid sequence length", location));
    }
    let mut out: Vec<Decoded> = Vec::with_capacity(shapes.len());
    let ghost all = sequence.items();
    let ghost input = items_view(all);
    let mut rest = reversed(Sequence::into_iter(sequence));
    let mut i: usize = 0;
    assert(decoded_items_view(out@) =~= Seq::empty());
    while rest.len() > 0
        invariant
            i + rest@.len() == all.len(),
            all.len() == shapes.len(),
            all == sequence.items(),
            input == items_view(all),
            forall|k: int| 0 <= k < rest@.len() ==> rest@[k] == all[all.len() - 1 - k],
            decoded_tuple::<E>(*shapes, input, location@, i as nat) == Ok::<
                Seq<DecodedView>,
                E::Model,
            >(decoded_items_view(out@)),
        decreases rest@.len(),
    {
        let item = rest.pop().unwrap();
        assert(item == all[i as int]);
        assert(input[i as int] == item.value());
        let here = location.push_index(i);
        let ghost before = decoded_items_view(out@);
        match shapes[i].deserialize_from_value::<V, E>(item.into_value(), here) {
            Ok(d) => {
                out.push(d);
                assert(decoded_items_view(out@) =~= before.push(d@));
            },
            Err(e) => {
                proof {
                    lemma_tuple_stays_failed::<E>(
                        *shapes,
                        input,
                        location@,
                        (i + 1) as nat,
                        all.len(),
                    );
                }
                return Err(e);
            },
        }
        i += 1;
    }
    Ok(out)
}

/// Decodes the entries of a mapping: each key parsed as `key`, each value
/// decoded as `inner`, in order. A later entry takes the place of an
/// earlier one with the same key. The first key that does not parse, or the
/// first value that fails, ends the decode.
pub fn deserialize_entries<V: IntoValue, E: DeserializeError>(
    key: KeyShape,
    inner: &Shape,
    mapping: V::Mapping,
    location: ValuePointerRef<'_>,
) -> (r: Result<Vec<(MapKey, Decoded)>, E>)
    ensures
        entries_outcome(r) == decoded_entries::<E>(
            key,
            *inner,
            entries_view(mapping.entries()),
            location@,
            mapping.entries().len(),
        ),
    decreases *inner, 1nat,
{
    let mut out: Vec<(MapKey, Decoded)> = Vec::with_capacity(Mapping::len(&mapping));
    let ghost all = mapping.entries();
    let ghost input = entries_view(all);
    let mut rest = reversed(Mapping::into_iter(mapping));
    let mut i: usize = 0;
    assert(decoded_entries_view(out@) =~= Seq::empty());
    while rest.len() > 0
        invariant
            i + rest@.len() == all.len(),
            all.len() <= usize::MAX,
            all == mapping.entries(),
            input == entries_view(all),
            forall|k: int|
                0 <= k < rest@.len() ==> (#[trigger] rest@[k]).0@ == all[all.len() - 1 - k].0
                    && rest@[k].1 == all[all.len() - 1 - k].1,
            decoded_entries::<E>(key, *inner, input, location@, i as nat) == Ok::<
                Seq<(MapKeyView, DecodedView)>,
                E::Model,
            >(decoded_entries_view(out@)),
        decreases rest@.len(),
    {
        let ghost last = rest@[rest@.len() - 1];
        let entry = rest.pop().unwrap();
        assert(entry == last);
        assert(input[i as int] == (entry.0@, entry.1.value()));
        let (text, item) = entry;
        let here = location.push_key(text.as_str());
        let ghost before = decoded_entries_view(out@);
        proof {
            lemma_entries_stay_failed::<E>(
                key,
                *inner,
                input,
                location@,
                (i + 1) as nat,
                all.len(),
            );
        }
        let parsed = match key.parse(text.as_str()) {
            Some(parsed) => parsed,
            None => {
                return Err(unexpected_error("cannot parse map key", here));
            },
        };
        match inner.deserialize_from_value::<V, E>(item.into_value(), here) {
            Ok(d) => {
                match find_key(&out, &parsed) {
                    Some(at) => {
                        let ghost k = parsed@;
                        out[at] = (parsed, d);
                        assert(decoded_entries_view(out@) =~= before.update(at as int, (k, d@)));
                    },
                    None => {
                        let ghost k = parsed@;
                        out.push((parsed, d));
                        assert(decoded_entries_view(out@) =~= before.push((k, d@)));
                    },
                }
            },
            Err(e) => {
                return Err(e);
            },
        }
        i += 1;
    }
    Ok(out)
}

impl Shape {
    /// Decodes `value`, found at `location`, as this type.
    ///
    /// A value of the wrong kind gives the error type's report of the kind
    /// found and the kinds accepted. An integer that the type does not hold,
    /// a tuple of the wrong length and a key that does not parse give its
    /// report of an unexpected problem. Within a sequence, a tuple or a
    /// mapping the first failure ends the decode; a struct goes on for as
    /// long as the error type says.
    ///
    /// Every nested call decodes as a part of this shape, so the calls nest
    /// no deeper than the shape does, however deep the input is: what lies
    /// below a node of the wrong kind, or under a key that names no field,
    /// is never entered.
    pub fn deserialize_from_value<V: IntoValue, E: DeserializeError>(
        &self,
        value: Value<V>,
        location: ValuePointerRef<'_>,
    ) -> (r: Result<Decoded, E>)
        ensures
            outcome(r) == decoded::<E>(*self, value@, location@),
        decreases *self, 0nat,
    {
        match self {
            Shape::Unit => match deserialize_unit::<V, E>(value, location) {
                Ok(_) => Ok(Decoded::Unit),
                Err(e) => Err(e),
            },
            Shape::Bool => match deserialize_bool::<V, E>(value, location) {
                Ok(b) => Ok(Decoded::Bool(b)),
                Err(e) => Err(e),
            },
            Shape::Unsigned(width) => match deserialize_unsigned::<V, E>(*width, value, location) {
                Ok(n) => Ok(Decoded::Unsigned(n)),
                Err(e) => Err(e),
            },
            Shape::Signed(width) => match deserialize_signed::<V, E>(*width, value, location) {
                Ok(n) => Ok(Decoded::Signed(n)),
                Err(e) => Err(e),
            },
            Shape::Float => match deserialize_float::<V, E>(value, location) {
                Ok(n) => Ok(Decoded::Float(n)),
                Err(e) => Err(e),
            },
            Shape::String => match deserialize_string::<V, E>(value, location) {
                Ok(s) => Ok(Decoded::String(s)),
                Err(e) => Err(e),
            },
            Shape::Optional(inner) => match value {
                Value::Null => Ok(Decoded::Optional(None)),
                v => match inner.deserialize_from_value::<V, E>(v, location) {
                    Ok(d) => Ok(Decoded::Optional(Some(Box::new(d)))),
                    Err(e) => Err(e),
                },
            },
            Shape::Boxed(inner) => match inner.deserialize_from_value::<V, E>(value, location) {
                Ok(d) => Ok(Decoded::Boxed(Box::new(d))),
                Err(e) => Err(e),
            },
            Shape::Sequence(inner) => match value {
                Value::Sequence(sequence) => match deserialize_items::<V, E>(
                    inner,
                    sequence,
                    location,
                ) {
                    Ok(ds) => Ok(Decoded::Sequence(ds)),
                    Err(e) => Err(e),
                },
                v => {
                    let accepted = [ValueKind::Sequence];
                    assert(accepted@ =~= seq![ValueKind::Sequence]);
                    Err(incorrect_kind(v, &accepted, location))
                },
            },
            Shape::Mapping(key, inner) => match value {
                Value::Mapping(mapping) => match deserialize_entries::<V, E>(
                    *key,
                    inner,
                    mapping,
                    location,
                ) {
                    Ok(ds) => Ok(Decoded::Mapping(ds)),
                    Err(e) => Err(e),
                },
                v => {
                    let accepted = [ValueKind::Mapping];
                    assert(accepted@ =~= seq![ValueKind::Mapping]);
                    Err(incorrect_kind(v, &accepted, location))
                },
            },
            Shape::Tuple(shapes) => match value {
                Value::Sequence(sequence) => match deserialize_tuple::<V, E>(
                    shapes,
                    sequence,
                    location,
                ) {
                    Ok(ds) => Ok(Decoded::Tuple(ds)),
                    Err(e) => Err(e),
                },
                v => {
                    let accepted = [ValueKind::Sequence];
                    assert(accepted@ =~= seq![ValueKind::Sequence]);
                    Err(incorrect_kind(v, &accepted, location))
                },
            },
            Shape::Derived(info) => match value {
                Value::Mapping(mapping) => match &info.data {
                    DerivedTypeData::Struct(fields) => match deserialize_struct::<V, E>(
                        &info.common,
                        fields,
                        mapping,
                        location,
                    ) {
                        Ok(ds) => Ok(Decoded::Struct(ds)),
                        Err(e) => Err(e),
                    },
                    DerivedTypeData::Enum { tag, variants } => deserialize_tagged_enum::<V, E>(
                        &info.common,
                        tag,
                        variants,
                        mapping,
                        location,
                    ),
                },
                v => {
                    let accepted = [ValueKind::Mapping];
                    assert(accepted@ =~= seq![ValueKind::Mapping]);
                    Err(incorrect_kind(v, &accepted, location))
                },
            },
        }
    }
}

/// Decodes a parsed tree as `shape`, from the root.
pub fn deserialize<Val: IntoValue, E: DeserializeError>(shape: &Shape, value: Val) -> (r: Result<
    Decoded,
    E,
>)
    ensures
        outcome(r) == decoded::<E>(*shape, value.value(), Seq::empty()),
{
    let value = value.into_value();
    shape.deserialize_from_value::<Val, E>(value, ValuePointerRef::Origin)
}

} // verus!
