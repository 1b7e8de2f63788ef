//! What decoding produces.

use vstd::prelude::*;

verus! {

/// The source of a float: the number as the input held it. Widening it to
/// the float type is left to the caller.
#[derive(Debug, Clone, Copy, PartialEq, Eq)]
pub enum Number {
    Integer(u64),
    NegativeInteger(i64),
    Float(u64),
}

/// The key of a decoded mapping.
#[derive(Debug, Clone, PartialEq, Eq)]
pub enum MapKey {
    String(String),
    Unsigned(u64),
    Signed(i64),
}

/// The model of a [`MapKey`].
pub enum MapKeyView {
    String(Seq<char>),
    Unsigned(u64),
    Signed(i64),
}

impl View for MapKey {
    type V = MapKeyView;

    open spec fn view(&self) -> MapKeyView {
        match self {
            MapKey::String(s) => MapKeyView::String(s@),
            MapKey::Unsigned(n) => MapKeyView::Unsigned(*n),
            MapKey::Signed(n) => MapKeyView::Signed(*n),
        }
    }
}

impl MapKey {
    /// A copy of this key.
    pub fn duplicate(&self) -> (copy: MapKey)
        ensures
            copy@ == self@,
    {
        match self {
            MapKey::String(s) => MapKey::String(s.clone()),
            MapKey::Unsigned(n) => MapKey::Unsigned(*n),
            MapKey::Signed(n) => MapKey::Signed(*n),
        }
    }

    /// Whether two keys are the same key.
    pub fn same(&self, other: &MapKey) -> (b: bool)
        ensures
            b == (self@ == other@),
    {
        match (self, other) {
            (MapKey::String(a), MapKey::String(b)) => *a == *b,
            (MapKey::Unsigned(a), MapKey::Unsigned(b)) => *a == *b,
            (MapKey::Signed(a), MapKey::Signed(b)) => *a == *b,
            _ => false,
        }
    }
}

/// A decoded value. Which variant it is follows from the shape that it was
/// decoded as.
#[derive(Debug, PartialEq, Eq)]
pub enum Decoded {
    Unit,
    Bool(bool),
    Unsigned(u64),
    Signed(i64),
    Float(Number),
    String(String),
    Optional(Option<Box<Decoded>>),
    Boxed(Box<Decoded>),
    Sequence(Vec<Decoded>),
    /// Entries in the order in which their keys first occurred, each key once.
    Mapping(Vec<(MapKey, Decoded)>),
    Tuple(Vec<Decoded>),
    /// The fields of a struct, in the order of their declaration.
    Struct(Vec<Decoded>),
    /// The index of a variant among the declared ones, and its fields.
    Variant(usize, Vec<Decoded>),
}

/// The model of a [`Decoded`].
pub enum DecodedView {
    Unit,
    Bool(bool),
    Unsigned(u64),
    Signed(i64),
    Float(Number),
    String(Seq<char>),
    Optional(Option<Box<DecodedView>>),
    Boxed(Box<DecodedView>),
    Sequence(Seq<DecodedView>),
    Mapping(Seq<(MapKeyView, DecodedView)>),
    Tuple(Seq<DecodedView>),
    Struct(Seq<DecodedView>),
    Variant(nat, Seq<DecodedView>),
}

/// The models of decoded values, in order.
pub open spec fn decoded_items_view(items: Seq<Decoded>) -> Seq<DecodedView>
    decreases items, 1nat,
{
    Seq::new(
        items.len(),
        |i: int|
            if 0 <= i < items.len() {
                items[i].model()
            } else {
                DecodedView::Unit
            },
    )
}

/// The models of decoded entries, in order.
pub open spec fn decoded_entries_view(entries: Seq<(MapKey, Decoded)>) -> Seq<
    (MapKeyView, DecodedView),
>
    decreases entries, 1nat,
{
    Seq::new(
        entries.len(),
        |i: int|
            if 0 <= i < entries.len() {
                (entries[i].0@, entries[i].1.model())
            } else {
                (MapKeyView::Unsigned(0), DecodedView::Unit)
            },
    )
}

impl Decoded {
    /// The model of this value.
    pub open spec fn model(self) -> DecodedView
        decreases self, 0nat,
    {
        match self {
            Decoded::Unit => DecodedView::Unit,
            Decoded::Bool(b) => DecodedView::Bool(b),
            Decoded::Unsigned(n) => DecodedView::Unsigned(n),
            Decoded::Signed(n) => DecodedView::Signed(n),
            Decoded::Float(n) => DecodedView::Float(n),
            Decoded::String(s) => DecodedView::String(s@),
            Decoded::Optional(None) => DecodedView::Optional(None),
            Decoded::Optional(Some(inner)) => DecodedView::Optional(Some(Box::new((*inner).model()))),
            Decoded::Boxed(inner) => DecodedView::Boxed(Box::new((*inner).model())),
            Decoded::Sequence(items) => DecodedView::Sequence(decoded_items_view(items@)),
            Decoded::Mapping(entries) => DecodedView::Mapping(decoded_entries_view(entries@)),
            Decoded::Tuple(items) => DecodedView::Tuple(decoded_items_view(items@)),
            Decoded::Struct(fields) => DecodedView::Struct(decoded_items_view(fields@)),
            Decoded::Variant(index, fields) => DecodedView::Variant(
                index as nat,
                decoded_items_view(fields@),
            ),
        }
    }

    /// A copy of this value.
    pub fn duplicate(&self) -> (copy: Decoded)
        ensures
            copy@ == self@,
        decreases *self, 0nat,
    {
        match self {
            Decoded::Unit => Decoded::Unit,
            Decoded::Bool(b) => Decoded::Bool(*b),
            Decoded::Unsigned(n) => Decoded::Unsigned(*n),
            Decoded::Signed(n) => Decoded::Signed(*n),
            Decoded::Float(n) => Decoded::Float(*n),
            Decoded::String(s) => Decoded::String(s.clone()),
            Decoded::Optional(None) => Decoded::Optional(None),
            Decoded::Optional(Some(inner)) => Decoded::Optional(Some(Box::new(inner.duplicate()))),
            Decoded::Boxed(inner) => Decoded::Boxed(Box::new(inner.duplicate())),
            Decoded::Sequence(items) => Decoded::Sequence(duplicate_items(items)),
            Decoded::Mapping(entries) => Decoded::Mapping(duplicate_entries(entries)),
            Decoded::Tuple(items) => Decoded::Tuple(duplicate_items(items)),
            Decoded::Struct(fields) => Decoded::Struct(duplicate_items(fields)),
            Decoded::Variant(index, fields) => Decoded::Variant(*index, duplicate_items(fields)),
        }
    }
}

/// Copies of decoded values, in order.
pub fn duplicate_items(items: &Vec<Decoded>) -> (copy: Vec<Decoded>)
    ensures
        decoded_items_view(copy@) == decoded_items_view(items@),
    decreases *items, 1nat,
{
    let mut copy: Vec<Decoded> = Vec::new();
    let mut i: usize = 0;
    while i < items.len()
        invariant
            i <= items.len(),
            copy@.len() == i,
            forall|j: int| 0 <= j < i ==> copy@[j]@ == items@[j]@,
        decreases items.len() - i,
    {
        copy.push(items[i].duplicate());
        i += 1;
    }
    assert(decoded_items_view(copy@) =~= decoded_items_view(items@));
    copy
}

/// Copies of decoded entries, in order.
pub fn duplicate_entries(entries: &Vec<(MapKey, Decoded)>) -> (copy: Vec<(MapKey, Decoded)>)
    ensures
        decoded_entries_view(copy@) == decoded_entries_view(entries@),
    decreases *entries, 1nat,
{
    let mut copy: Vec<(MapKey, Decoded)> = Vec::new();
    let mut i: usize = 0;
    while i < entries.len()
        invariant
            i <= entries.len(),
            copy@.len() == i,
            forall|j: int|
                0 <= j < i ==> copy@[j].0@ == entries@[j].0@ && copy@[j].1@ == entries@[j].1@,
        decreases entries.len() - i,
    {
        let entry = &entries[i];
        copy.push((entry.0.duplicate(), entry.1.duplicate()));
        i += 1;
    }
    assert(decoded_entries_view(copy@) =~= decoded_entries_view(entries@));
    copy
}

impl View for Decoded {
    type V = DecodedView;

    open spec fn view(&self) -> DecodedView {
        self.model()
    }
}

} // verus!
