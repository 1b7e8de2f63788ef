//! The state of one field while a struct is being decoded.

use vstd::prelude::*;

verus! {

/// What is known of a field: nothing yet, that its value failed to decode,
/// or its value.
#[derive(Debug, Clone, PartialEq, Eq)]
pub enum FieldState<T> {
    Missing,
    Failed,
    Present(T),
}

impl<T> FieldState<T> {
    /// Whether nothing is known of the field yet.
    pub fn is_missing(&self) -> (b: bool)
        ensures
            b == (*self is Missing),
    {
        match self {
            FieldState::Missing => true,
            _ => false,
        }
    }

    /// The value of a field that has one.
    pub fn unwrap(self) -> (value: T)
        requires
            self is Present,
        ensures
            self == FieldState::Present(value),
    {
        match self {
            FieldState::Present(value) => value,
            _ => vstd::pervasive::unreached(),
        }
    }
}

} // verus!
