//! The error protocol: how problems are built, merged and reported.
//!
//! Every constructor takes the error accumulated so far, if any, and answers
//! `Ok` to record the problem and go on decoding, or `Err` to stop at once.

use vstd::prelude::*;
use crate::location::{Step, ValuePointer, ValuePointerRef};
use crate::value::ValueKind;

verus! {

/// A type whose values have a mathematical model that contracts speak of.
pub trait Modeled {
    type Model;

    /// What a value stands for.
    open spec fn model(&self) -> Self::Model {
        arbitrary()
    }
}

/// An application-defined problem, known by a code of the application's
/// choosing.
#[derive(Debug, Clone, Copy, PartialEq, Eq)]
pub struct CustomError {
    pub code: u64,
}

impl Modeled for CustomError {
    type Model = u64;

    open spec fn model(&self) -> u64 {
        self.code
    }
}

/// An error type that can absorb a problem of type `T`.
pub trait MergeWithError<T: Modeled>: Sized + Modeled {
    /// The verdict on absorbing `other`, found at `location`, into `prev`.
    open spec fn merged(
        prev: Option<Self::Model>,
        other: T::Model,
        location: Seq<Step>,
    ) -> Result<Self::Model, Self::Model> {
        arbitrary()
    }

    /// Absorbs `other`, found at `merge_location`, into the error
    /// accumulated so far: `Ok` to go on decoding, `Err` to stop at once.
    fn merge(prev: Option<Self>, other: T, merge_location: ValuePointerRef<'_>) -> (r: Result<
        Self,
        Self,
    >)
        ensures
            (match r {
                Ok(e) => Ok(e.model()),
                Err(e) => Err(e.model()),
            }) == Self::merged(
                match prev {
                    Some(e) => Some(e.model()),
                    None => None,
                },
                other.model(),
                merge_location@,
            ),
    ;
}

/// The error type of a decode: four constructors, each with the verdict on
/// whether decoding goes on.
pub trait DeserializeError: Sized + Modeled + MergeWithError<Self> + MergeWithError<CustomError> {
    /// Where an error occurred, if it says.
    open spec fn location_of(error: Self::Model) -> Option<Seq<Step>> {
        arbitrary()
    }

    /// The verdict on a value of the wrong kind.
    open spec fn on_incorrect_value_kind(
        prev: Option<Self::Model>,
        actual: ValueKind,
        accepted: Seq<ValueKind>,
        location: Seq<Step>,
    ) -> Result<Self::Model, Self::Model> {
        arbitrary()
    }

    /// The verdict on a field that the input lacks.
    open spec fn on_missing_field(
        prev: Option<Self::Model>,
        field: Seq<char>,
        location: Seq<Step>,
    ) -> Result<Self::Model, Self::Model> {
        arbitrary()
    }

    /// The verdict on a key that names no field.
    open spec fn on_unknown_key(
        prev: Option<Self::Model>,
        key: Seq<char>,
        accepted: Seq<Seq<char>>,
        location: Seq<Step>,
    ) -> Result<Self::Model, Self::Model> {
        arbitrary()
    }

    /// The verdict on any other problem.
    open spec fn on_unexpected(
        prev: Option<Self::Model>,
        msg: Seq<char>,
        location: Seq<Step>,
    ) -> Result<Self::Model, Self::Model> {
        arbitrary()
    }

    /// Where the error occurred, if it says.
    fn location(&self) -> (location: Option<ValuePointer>)
        ensures
            (match location {
                Some(pointer) => Some(pointer@),
                None => None,
            }) == Self::location_of(self.model()),
    ;

    /// Reports a value of kind `actual` where one of the kinds `accepted`
    /// was called for.
    fn incorrect_value_kind(
        prev: Option<Self>,
        actual: ValueKind,
        accepted: &[ValueKind],
        location: ValuePointerRef<'_>,
    ) -> (r: Result<Self, Self>)
        ensures
            (match r {
                Ok(e) => Ok(e.model()),
                Err(e) => Err(e.model()),
            }) == Self::on_incorrect_value_kind(
                match prev {
                    Some(e) => Some(e.model()),
                    None => None,
                },
                actual,
                accepted@,
                location@,
            ),
    ;

    /// Reports that the input lacks the field under the key `field`.
    fn missing_field(prev: Option<Self>, field: &str, location: ValuePointerRef<'_>) -> (r: Result<
        Self,
        Self,
    >)
        ensures
            (match r {
                Ok(e) => Ok(e.model()),
                Err(e) => Err(e.model()),
            }) == Self::on_missing_field(
                match prev {
                    Some(e) => Some(e.model()),
                    None => None,
                },
                field@,
                location@,
            ),
    ;

    /// Reports the key `key`, which is none of the keys `accepted`.
    fn unknown_key(
        prev: Option<Self>,
        key: &str,
        accepted: &[&str],
        location: ValuePointerRef<'_>,
    ) -> (r: Result<Self, Self>)
        ensures
            (match r {
                Ok(e) => Ok(e.model()),
                Err(e) => Err(e.model()),
            }) == Self::on_unknown_key(
                match prev {
                    Some(e) => Some(e.model()),
                    None => None,
                },
                key@,
                accepted@.map_values(|name: &str| name@),
                location@,
            ),
    ;

    /// Reports any other problem, with a message.
    fn unexpected(prev: Option<Self>, msg: &str, location: ValuePointerRef<'_>) -> (r: Result<
        Self,
        Self,
    >)
        ensures
            (match r {
                Ok(e) => Ok(e.model()),
                Err(e) => Err(e.model()),
            }) == Self::on_unexpected(
                match prev {
                    Some(e) => Some(e.model()),
                    None => None,
                },
                msg@,
                location@,
            ),
    ;
}

/// The error type that this crate provides. It stops at the first problem.
#[derive(Debug, Clone, PartialEq, Eq)]
pub enum Error {
    IncorrectValueKind { actual: ValueKind, accepted: Vec<ValueKind>, location: ValuePointer },
    MissingField { field: String, location: ValuePointer },
    UnknownKey { key: String, accepted: Vec<String>, location: ValuePointer },
    Unexpected { msg: String, location: ValuePointer },
    Custom { code: u64, location: ValuePointer },
}

/// The model of an [`Error`].
pub enum ErrorView {
    IncorrectValueKind { actual: ValueKind, accepted: Seq<ValueKind>, location: Seq<Step> },
    MissingField { field: Seq<char>, location: Seq<Step> },
    UnknownKey { key: Seq<char>, accepted: Seq<Seq<char>>, location: Seq<Step> },
    Unexpected { msg: Seq<char>, location: Seq<Step> },
    Custom { code: u64, location: Seq<Step> },
}

impl ErrorView {
    /// The path at which the problem was found.
    pub open spec fn location(self) -> Seq<Step> {
        match self {
            ErrorView::IncorrectValueKind { location, .. } => location,
            ErrorView::MissingField { location, .. } => location,
            ErrorView::UnknownKey { location, .. } => location,
            ErrorView::Unexpected { location, .. } => location,
            ErrorView::Custom { location, .. } => location,
        }
    }
}

impl View for Error {
    type V = ErrorView;

    open spec fn view(&self) -> ErrorView {
        match self {
            Error::IncorrectValueKind { actual, accepted, location } => {
                ErrorView::IncorrectValueKind {
                    actual: *actual,
                    accepted: accepted@,
                    location: location@,
                }
            },
            Error::MissingField { field, location } => ErrorView::MissingField {
                field: field@,
                location: location@,
            },
            Error::UnknownKey { key, accepted, location } => ErrorView::UnknownKey {
                key: key@,
                accepted: accepted@.map_values(|name: String| name@),
                location: location@,
            },
            Error::Unexpected { msg, location } => ErrorView::Unexpected {
                msg: msg@,
                location: location@,
            },
            Error::Custom { code, location } => ErrorView::Custom {
                code: *code,
                location: location@,
            },
        }
    }
}

impl Modeled for Error {
    type Model = ErrorView;

    open spec fn model(&self) -> ErrorView {
        self@
    }
}

impl MergeWithError<Error> for Error {
    open spec fn merged(prev: Option<ErrorView>, other: ErrorView, location: Seq<Step>) -> Result<
        ErrorView,
        ErrorView,
    > {
        Err(other)
    }

    fn merge(prev: Option<Self>, other: Error, merge_location: ValuePointerRef<'_>) -> (r: Result<
        Self,
        Self,
    >) {
        Err(other)
    }
}

impl MergeWithError<CustomError> for Error {
    open spec fn merged(prev: Option<ErrorView>, other: u64, location: Seq<Step>) -> Result<
        ErrorView,
        ErrorView,
    > {
        Err(ErrorView::Custom { code: other, location })
    }

    fn merge(prev: Option<Self>, other: CustomError, merge_location: ValuePointerRef<'_>) -> (r:
        Result<Self, Self>) {
        Err(Error::Custom { code: other.code, location: merge_location.to_owned() })
    }
}

/// Owned copies of kinds.
fn owned_kinds(kinds: &[ValueKind]) -> (owned: Vec<ValueKind>)
    ensures
        owned@ == kinds@,
{
    let mut owned: Vec<ValueKind> = Vec::new();
    let mut i: usize = 0;
    while i < kinds.len()
        invariant
            i <= kinds.len(),
            owned@ == kinds@.take(i as int),
        decreases kinds.len() - i,
    {
        owned.push(kinds[i]);
        assert(kinds@.take(i as int).push(kinds@[i as int]) =~= kinds@.take(i + 1));
        i += 1;
    }
    assert(kinds@.take(i as int) =~= kinds@);
    owned
}

/// Owned copies of names.
fn owned_names(names: &[&str]) -> (owned: Vec<String>)
    ensures
        owned@.map_values(|name: String| name@) == names@.map_values(|name: &str| name@),
{
    let mut owned: Vec<String> = Vec::new();
    let mut i: usize = 0;
    while i < names.len()
        invariant
            i <= names.len(),
            owned@.len() == i,
            forall|j: int| 0 <= j < i ==> owned@[j]@ == names@[j]@,
        decreases names.len() - i,
    {
        owned.push(names[i].to_owned());
        i += 1;
    }
    assert(owned@.map_values(|name: String| name@) =~= names@.map_values(|name: &str| name@));
    owned
}

impl DeserializeError for Error {
    open spec fn location_of(error: ErrorView) -> Option<Seq<Step>> {
        Some(error.location())
    }

    open spec fn on_incorrect_value_kind(
        prev: Option<ErrorView>,
        actual: ValueKind,
        accepted: Seq<ValueKind>,
        location: Seq<Step>,
    ) -> Result<ErrorView, ErrorView> {
        Err(ErrorView::IncorrectValueKind { actual, accepted, location })
    }

    open spec fn on_missing_field(
        prev: Option<ErrorView>,
        field: Seq<char>,
        location: Seq<Step>,
    ) -> Result<ErrorView, ErrorView> {
        Err(ErrorView::MissingField { field, location })
    }

    open spec fn on_unknown_key(
        prev: Option<ErrorView>,
        key: Seq<char>,
        accepted: Seq<Seq<char>>,
        location: Seq<Step>,
    ) -> Result<ErrorView, ErrorView> {
        Err(ErrorView::UnknownKey { key, accepted, location })
    }

    open spec fn on_unexpected(
        prev: Option<ErrorView>,
        msg: Seq<char>,
        location: Seq<Step>,
    ) -> Result<ErrorView, ErrorView> {
        Err(ErrorView::Unexpected { msg, location })
    }

    fn location(&self) -> (location: Option<ValuePointer>) {
        match self {
            Error::IncorrectValueKind { location, .. } => Some(location.duplicate()),
            Error::MissingField { location, .. } => Some(location.duplicate()),
            Error::UnknownKey { location, .. } => Some(location.duplicate()),
            Error::Unexpected { location, .. } => Some(location.duplicate()),
            Error::Custom { location, .. } => Some(location.duplicate()),
        }
    }

    fn incorrect_value_kind(
        prev: Option<Self>,
        actual: ValueKind,
        accepted: &[ValueKind],
        location: ValuePointerRef<'_>,
    ) -> (r: Result<Self, Self>) {
        Err(
            Error::IncorrectValueKind {
                actual,
                accepted: owned_kinds(accepted),
                location: location.to_owned(),
            },
        )
    }

    fn missing_field(prev: Option<Self>, field: &str, location: ValuePointerRef<'_>) -> (r: Result<
        Self,
        Self,
    >) {
        Err(Error::MissingField { field: field.to_owned(), location: location.to_owned() })
    }

    fn unknown_key(
        prev: Option<Self>,
        key: &str,
        accepted: &[&str],
        location: ValuePointerRef<'_>,
    ) -> (r: Result<Self, Self>) {
        Err(
            Error::UnknownKey {
                key: key.to_owned(),
                accepted: owned_names(accepted),
                location: location.to_owned(),
            },
        )
    }

    fn unexpected(prev: Option<Self>, msg: &str, location: ValuePointerRef<'_>) -> (r: Result<
        Self,
        Self,
    >) {
        Err(Error::Unexpected { msg: msg.to_owned(), location: location.to_owned() })
    }
}

} // verus!
