//! Paths from the root of the value being decoded to the node at hand.

use vstd::prelude::*;

verus! {

/// One step of a path, as contracts see it.
pub enum Step {
    Key(Seq<char>),
    Index(nat),
}

/// A borrowed path: a backward-linked list of steps that lives on the stack.
///
/// Each push borrows the path that it extends, so nothing is allocated while
/// decoding goes well.
#[derive(Debug, Clone, Copy)]
pub enum ValuePointerRef<'a> {
    Origin,
    Key { key: &'a str, prev: &'a ValuePointerRef<'a> },
    Index { index: usize, prev: &'a ValuePointerRef<'a> },
}

/// One step of an owned path.
#[derive(Debug, Clone, PartialEq, Eq)]
pub enum ValuePointerComponent {
    Key(String),
    Index(usize),
}

/// An owned path, steps in order from the root: the copy taken when an error
/// has to outlive the borrowed path.
#[derive(Debug, Clone, PartialEq, Eq)]
pub struct ValuePointer {
    pub path: Vec<ValuePointerComponent>,
}

impl View for ValuePointerComponent {
    type V = Step;

    open spec fn view(&self) -> Step {
        match self {
            ValuePointerComponent::Key(key) => Step::Key(key@),
            ValuePointerComponent::Index(index) => Step::Index(*index as nat),
        }
    }
}

impl View for ValuePointer {
    type V = Seq<Step>;

    open spec fn view(&self) -> Seq<Step> {
        self.path@.map_values(|c: ValuePointerComponent| c@)
    }
}

impl ValuePointer {
    /// A copy of this path.
    pub fn duplicate(&self) -> (copy: ValuePointer)
        ensures
            copy@ == self@,
    {
        let mut path: Vec<ValuePointerComponent> = Vec::new();
        let mut i: usize = 0;
        while i < self.path.len()
            invariant
                i <= self.path.len(),
                path@.len() == i,
                forall|j: int| 0 <= j < i ==> path@[j]@ == self.path@[j]@,
            decreases self.path.len() - i,
        {
            let component = match &self.path[i] {
                ValuePointerComponent::Key(key) => ValuePointerComponent::Key(key.clone()),
                ValuePointerComponent::Index(index) => ValuePointerComponent::Index(*index),
            };
            path.push(component);
            i += 1;
        }
        let copy = ValuePointer { path };
        assert(copy@ =~= self@);
        copy
    }
}

impl<'a> ValuePointerRef<'a> {
    /// The steps of this path, from the root.
    pub open spec fn steps(self) -> Seq<Step>
        decreases self,
    {
        match self {
            ValuePointerRef::Origin => Seq::empty(),
            ValuePointerRef::Key { key, prev } => (*prev).steps().push(Step::Key(key@)),
            ValuePointerRef::Index { index, prev } => (*prev).steps().push(
                Step::Index(index as nat),
            ),
        }
    }

    /// Whether this is the empty path.
    pub fn is_origin(&self) -> (b: bool)
        ensures
            b == (self@.len() == 0),
    {
        match self {
            ValuePointerRef::Origin => true,
            _ => false,
        }
    }

    /// This path extended by a key.
    pub fn push_key(&'a self, key: &'a str) -> (r: ValuePointerRef<'a>)
        ensures
            r@ == self@.push(Step::Key(key@)),
    {
        ValuePointerRef::Key { key, prev: self }
    }

    /// This path extended by an index.
    pub fn push_index(&'a self, index: usize) -> (r: ValuePointerRef<'a>)
        ensures
            r@ == self@.push(Step::Index(index as nat)),
    {
        ValuePointerRef::Index { index, prev: self }
    }

    /// An owned copy of this path.
    pub fn to_owned(&self) -> (owned: ValuePointer)
        ensures
            owned@ == self@,
        decreases *self,
    {
        match self {
            ValuePointerRef::Origin => {
                let owned = ValuePointer { path: Vec::new() };
                assert(owned@ =~= self@);
                owned
            },
            ValuePointerRef::Key { key, prev } => {
                let mut owned = ValuePointerRef::to_owned(*prev);
                let ghost before = owned@;
                owned.path.push(ValuePointerComponent::Key((*key).to_owned()));
                assert(owned@ =~= before.push(Step::Key(key@)));
                owned
            },
            ValuePointerRef::Index { index, prev } => {
                let mut owned = ValuePointerRef::to_owned(*prev);
                let ghost before = owned@;
                owned.path.push(ValuePointerComponent::Index(*index));
                assert(owned@ =~= before.push(Step::Index(*index as nat)));
                owned
            },
        }
    }
}

impl<'a> View for ValuePointerRef<'a> {
    type V = Seq<Step>;

    open spec fn view(&self) -> Seq<Step> {
        self.steps()
    }
}

} // verus!
