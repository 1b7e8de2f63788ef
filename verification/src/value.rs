//! The canonical value model and the adapter contract.
//!
//! A format library owns the parsed tree. An adapter hands it over one node
//! at a time: a node becomes a [`Value`], which owns the sequence or the
//! mapping below it without having looked inside.

use vstd::prelude::*;
use crate::model::keys_of;

verus! {

/// The kind of a [`Value`]: which of its variants is active.
#[derive(Debug, Clone, Copy, PartialEq, Eq, Structural)]
pub enum ValueKind {
    Null,
    Boolean,
    Integer,
    NegativeInteger,
    Float,
    String,
    Sequence,
    Mapping,
}

/// One node of parsed input.
///
/// Non-negative and negative integers are kept apart, so that magnitudes
/// above `i64::MAX` survive. A float is held as its IEEE-754 binary64 bit
/// pattern.
#[derive(Debug)]
pub enum Value<V: IntoValue> {
    Null,
    Boolean(bool),
    Integer(u64),
    NegativeInteger(i64),
    Float(u64),
    String(String),
    Sequence(V::Sequence),
    Mapping(V::Mapping),
}

/// The mathematical model of a parsed tree.
pub enum ValueView {
    Null,
    Boolean(bool),
    Integer(u64),
    NegativeInteger(i64),
    Float(u64),
    String(Seq<char>),
    Sequence(Seq<ValueView>),
    Mapping(Seq<(Seq<char>, ValueView)>),
}

impl ValueView {
    /// The kind of this value.
    pub open spec fn kind(self) -> ValueKind {
        match self {
            ValueView::Null => ValueKind::Null,
            ValueView::Boolean(_) => ValueKind::Boolean,
            ValueView::Integer(_) => ValueKind::Integer,
            ValueView::NegativeInteger(_) => ValueKind::NegativeInteger,
            ValueView::Float(_) => ValueKind::Float,
            ValueView::String(_) => ValueKind::String,
            ValueView::Sequence(_) => ValueKind::Sequence,
            ValueView::Mapping(_) => ValueKind::Mapping,
        }
    }
}

/// A sequence of nodes that have not been looked at yet.
pub trait Sequence: Sized {
    type Value;

    /// The items, in the order of the input.
    open spec fn items(&self) -> Seq<Self::Value> {
        arbitrary()
    }

    /// The number of items.
    fn len(&self) -> (n: usize)
        ensures
            n == self.items().len(),
    ;

    /// Hands over the items, in the order of the input.
    fn into_iter(self) -> (items: Vec<Self::Value>)
        ensures
            items@ == self.items(),
    ;
}

/// A mapping from keys to nodes that have not been looked at yet.
pub trait Mapping: Sized {
    type Value;

    /// The entries, in the order of the input.
    open spec fn entries(&self) -> Seq<(Seq<char>, Self::Value)> {
        arbitrary()
    }

    /// The number of entries.
    fn len(&self) -> (n: usize)
        ensures
            n == self.entries().len(),
    ;

    /// Takes out the first entry under `key`, if there is one, and hands
    /// over its value. The other entries stay as they are.
    fn remove(&mut self, key: &str) -> (removed: Option<Self::Value>)
        ensures
            match keys_of(old(self).entries()).index_of_first(key@) {
                Some(at) => removed == Some(old(self).entries()[at].1) && final(self).entries()
                    == old(self).entries().remove(at),
                None => removed is None && final(self).entries() == old(self).entries(),
            },
    ;

    /// Hands over the entries, in the order of the input.
    fn into_iter(self) -> (entries: Vec<(String, Self::Value)>)
        ensures
            entries@.len() == self.entries().len(),
            forall|i: int|
                0 <= i < entries@.len() ==> (#[trigger] entries@[i]).0@ == self.entries()[i].0
                    && entries@[i].1 == self.entries()[i].1,
    ;
}

/// A node of a parsed tree that can be turned into a [`Value`].
///
/// `kind` does not change the node, and names the variant that `into_value`
/// then produces.
pub trait IntoValue: Sized {
    type Sequence: Sequence<Value = Self>;

    type Mapping: Mapping<Value = Self>;

    /// The tree below this node.
    open spec fn value(&self) -> ValueView {
        arbitrary()
    }

    /// The kind of this node.
    fn kind(&self) -> (kind: ValueKind)
        ensures
            kind == self.value().kind(),
    ;

    /// This node as a value: a scalar, or the sequence or the mapping
    /// below it, handed over as it is.
    fn into_value(self) -> (value: Value<Self>)
        ensures
            self.value() == (match value {
                Value::Null => ValueView::Null,
                Value::Boolean(b) => ValueView::Boolean(b),
                Value::Integer(n) => ValueView::Integer(n),
                Value::NegativeInteger(n) => ValueView::NegativeInteger(n),
                Value::Float(bits) => ValueView::Float(bits),
                Value::String(s) => ValueView::String(s@),
                Value::Sequence(sequence) => ValueView::Sequence(
                    sequence.items().map_values(|item: Self| item.value()),
                ),
                Value::Mapping(mapping) => ValueView::Mapping(
                    mapping.entries().map_values(|entry: (Seq<char>, Self)| (entry.0, entry.1.value())),
                ),
            }),
    ;
}

/// The trees below the items of a sequence.
pub open spec fn items_view<V: IntoValue>(items: Seq<V>) -> Seq<ValueView> {
    items.map_values(|item: V| item.value())
}

/// The keys of the entries of a mapping, with the trees below them.
pub open spec fn entries_view<V: IntoValue>(entries: Seq<(Seq<char>, V)>) -> Seq<
    (Seq<char>, ValueView),
> {
    entries.map_values(|entry: (Seq<char>, V)| (entry.0, entry.1.value()))
}

impl<V: IntoValue> View for Value<V> {
    type V = ValueView;

    open spec fn view(&self) -> ValueView {
        match self {
            Value::Null => ValueView::Null,
            Value::Boolean(b) => ValueView::Boolean(*b),
            Value::Integer(n) => ValueView::Integer(*n),
            Value::NegativeInteger(n) => ValueView::NegativeInteger(*n),
            Value::Float(bits) => ValueView::Float(*bits),
            Value::String(s) => ValueView::String(s@),
            Value::Sequence(sequence) => ValueView::Sequence(items_view(sequence.items())),
            Value::Mapping(mapping) => ValueView::Mapping(entries_view(mapping.entries())),
        }
    }
}

impl<V: IntoValue> Value<V> {
    /// Which variant is active.
    pub fn kind(&self) -> (kind: ValueKind)
        ensures
            kind == self@.kind(),
    {
        match self {
            Value::Null => ValueKind::Null,
            Value::Boolean(_) => ValueKind::Boolean,
            Value::Integer(_) => ValueKind::Integer,
            Value::NegativeInteger(_) => ValueKind::NegativeInteger,
            Value::Float(_) => ValueKind::Float,
            Value::String(_) => ValueKind::String,
            Value::Sequence(_) => ValueKind::Sequence,
            Value::Mapping(_) => ValueKind::Mapping,
        }
    }
}

impl<T> Sequence for Vec<T> {
    type Value = T;

    open spec fn items(&self) -> Seq<T> {
        self@
    }

    fn len(&self) -> (n: usize) {
        Vec::len(self)
    }

    fn into_iter(self) -> (items: Vec<T>) {
        self
    }
}

/// The keys of owned entries, with their values.
pub open spec fn owned_entries<T>(entries: Seq<(String, T)>) -> Seq<(Seq<char>, T)> {
    entries.map_values(|entry: (String, T)| (entry.0@, entry.1))
}

impl<T> Mapping for Vec<(String, T)> {
    type Value = T;

    open spec fn entries(&self) -> Seq<(Seq<char>, T)> {
        owned_entries(self@)
    }

    fn len(&self) -> (n: usize) {
        Vec::len(self)
    }

    fn remove(&mut self, key: &str) -> (removed: Option<T>) {
        match position(self, key) {
            Some(at) => {
                let ghost before = self@;
                let entry = Vec::remove(self, at);
                assert(owned_entries(self@) =~= owned_entries(before).remove(at as int));
                Some(entry.1)
            },
            None => None,
        }
    }

    fn into_iter(self) -> (entries: Vec<(String, T)>) {
        self
    }
}

/// The index of the first entry under `key`, if there is one.
pub fn position<T>(entries: &Vec<(String, T)>, key: &str) -> (found: Option<usize>)
    ensures
        (match found {
            Some(at) => Some(at as int),
            None => None,
        }) == keys_of(owned_entries(entries@)).index_of_first(key@),
        found matches Some(at) ==> at < entries.len(),
{
    let ghost keys = keys_of(owned_entries(entries@));
    let wanted = key.to_owned();
    let mut i: usize = 0;
    while i < entries.len()
        invariant
            i <= entries.len(),
            keys == keys_of(owned_entries(entries@)),
            wanted@ == key@,
            forall|k: int| 0 <= k < i ==> keys[k] != key@,
        decreases entries.len() - i,
    {
        if entries[i].0 == wanted {
            proof {
                keys.index_of_first_ensures(key@);
                assert(keys[i as int] == key@);
                assert(keys.contains(key@));
            }
            return Some(i);
        }
        i += 1;
    }
    proof {
        keys.index_of_first_ensures(key@);
    }
    None
}

/// A parsed tree that owns all of its nodes.
#[derive(Debug, PartialEq, Eq)]
pub enum Tree {
    Null,
    Boolean(bool),
    Integer(u64),
    NegativeInteger(i64),
    Float(u64),
    String(String),
    Sequence(Vec<Tree>),
    Mapping(Vec<(String, Tree)>),
}

/// The models of trees, in order.
pub open spec fn trees_model(trees: Seq<Tree>) -> Seq<ValueView>
    decreases trees, 1nat,
{
    Seq::new(
        trees.len(),
        |i: int|
            if 0 <= i < trees.len() {
                trees[i].model()
            } else {
                ValueView::Null
            },
    )
}

/// The models of the entries of a mapping, in order.
pub open spec fn entries_model(entries: Seq<(String, Tree)>) -> Seq<(Seq<char>, ValueView)>
    decreases entries, 1nat,
{
    Seq::new(
        entries.len(),
        |i: int|
            if 0 <= i < entries.len() {
                (entries[i].0@, entries[i].1.model())
            } else {
                (Seq::empty(), ValueView::Null)
            },
    )
}

impl Tree {
    /// The model of this tree.
    pub open spec fn model(self) -> ValueView
        decreases self, 0nat,
    {
        match self {
            Tree::Null => ValueView::Null,
            Tree::Boolean(b) => ValueView::Boolean(b),
            Tree::Integer(n) => ValueView::Integer(n),
            Tree::NegativeInteger(n) => ValueView::NegativeInteger(n),
            Tree::Float(bits) => ValueView::Float(bits),
            Tree::String(s) => ValueView::String(s@),
            Tree::Sequence(items) => ValueView::Sequence(trees_model(items@)),
            Tree::Mapping(entries) => ValueView::Mapping(entries_model(entries@)),
        }
    }
}

impl View for Tree {
    type V = ValueView;

    open spec fn view(&self) -> ValueView {
        self.model()
    }
}

impl IntoValue for Tree {
    type Sequence = Vec<Tree>;

    type Mapping = Vec<(String, Tree)>;

    open spec fn value(&self) -> ValueView {
        self.model()
    }

    fn kind(&self) -> (kind: ValueKind) {
        match self {
            Tree::Null => ValueKind::Null,
            Tree::Boolean(_) => ValueKind::Boolean,
            Tree::Integer(_) => ValueKind::Integer,
            Tree::NegativeInteger(_) => ValueKind::NegativeInteger,
            Tree::Float(_) => ValueKind::Float,
            Tree::String(_) => ValueKind::String,
            Tree::Sequence(_) => ValueKind::Sequence,
            Tree::Mapping(_) => ValueKind::Mapping,
        }
    }

    fn into_value(self) -> (value: Value<Tree>) {
        match self {
            Tree::Null => Value::Null,
            Tree::Boolean(b) => Value::Boolean(b),
            Tree::Integer(n) => Value::Integer(n),
            Tree::NegativeInteger(n) => Value::NegativeInteger(n),
            Tree::Float(bits) => Value::Float(bits),
            Tree::String(s) => Value::String(s),
            Tree::Sequence(items) => {
                assert(items@.map_values(|item: Tree| item.value()) =~= trees_model(items@));
                Value::Sequence(items)
            },
            Tree::Mapping(entries) => {
                assert(owned_entries(entries@).map_values(
                    |entry: (Seq<char>, Tree)| (entry.0, entry.1.value()),
                ) =~= entries_model(entries@));
                Value::Mapping(entries)
            },
        }
    }
}

} // verus!
