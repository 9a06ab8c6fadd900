//! The errors of the signing phase.
use vstd::prelude::*;
use crate::source::Location;
use crate::ty::{Ty, TyView};

verus! {

/// What went wrong.
#[derive(Debug, PartialEq, Eq)]
pub enum Error {
    /// A class inherits from something other than `Account` or `Enum`.
    InvalidBase(Ty),
    /// A class inherits from both `Account` and `Enum`.
    EnumAccount,
    /// A statement of an enum is not of the form `name = value`.
    InvalidEnumVariant,
    /// A statement of a struct is not of the form `name: Type`.
    InvalidClassField,
    /// An annotation names nothing that is a type where it stands.
    UnresolvedType(String),
}

/// What an `Error` is, as a mathematical value.
pub enum ErrorView {
    InvalidBase(TyView),
    EnumAccount,
    InvalidEnumVariant,
    InvalidClassField,
    UnresolvedType(Seq<char>),
}

impl View for Error {
    type V = ErrorView;

    open spec fn view(&self) -> ErrorView {
        match self {
            Error::InvalidBase(ty) => ErrorView::InvalidBase(ty@),
            Error::EnumAccount => ErrorView::EnumAccount,
            Error::InvalidEnumVariant => ErrorView::InvalidEnumVariant,
            Error::InvalidClassField => ErrorView::InvalidClassField,
            Error::UnresolvedType(name) => ErrorView::UnresolvedType(name@),
        }
    }
}

impl Clone for Error {
    fn clone(&self) -> (r: Self)
        ensures
            r@ == self@,
    {
        match self {
            Error::InvalidBase(ty) => Error::InvalidBase(ty.clone()),
            Error::EnumAccount => Error::EnumAccount,
            Error::InvalidEnumVariant => Error::InvalidEnumVariant,
            Error::InvalidClassField => Error::InvalidClassField,
            Error::UnresolvedType(name) => Error::UnresolvedType(name.clone()),
        }
    }
}

impl ErrorView {
    /// The advice shown with an error of this kind, where there is any.
    pub open spec fn help(self) -> Option<Seq<char>> {
        match self {
            ErrorView::InvalidBase(_) => Some(
                "Help: inheritance in this version of Seahorse is limited to a few builtin types (Account and Enum). This will change in a future release."@,
            ),
            ErrorView::EnumAccount => None,
            ErrorView::InvalidEnumVariant => Some(
                "Help: `Enum` is a special type in Seahorse - you may only define variants like this:\n\n    variant_name = <unique int>"@,
            ),
            ErrorView::InvalidClassField => Some(
                "Help: make sure your field has nothing but a type annotation:\n\n    field_name: Type"@,
            ),
            ErrorView::UnresolvedType(_) => None,
        }
    }

    /// The error of this kind raised at `location`.
    pub open spec fn located(self, location: Location) -> CoreErrorView {
        CoreErrorView { kind: self, location, help: self.help() }
    }
}

/// An error with the place it was raised at and the advice that goes with it.
#[derive(Debug, PartialEq, Eq)]
pub struct CoreError {
    pub kind: Error,
    pub location: Location,
    pub help: Option<String>,
}

/// What a `CoreError` is, as a mathematical value.
pub struct CoreErrorView {
    pub kind: ErrorView,
    pub location: Location,
    pub help: Option<Seq<char>>,
}

impl View for CoreError {
    type V = CoreErrorView;

    open spec fn view(&self) -> CoreErrorView {
        CoreErrorView {
            kind: self.kind@,
            location: self.location,
            help: match self.help {
                Some(text) => Some(text@),
                None => None,
            },
        }
    }
}

impl Clone for CoreError {
    fn clone(&self) -> (r: Self)
        ensures
            r@ == self@,
    {
        CoreError {
            kind: self.kind.clone(),
            location: self.location,
            help: match &self.help {
                Some(text) => Some(text.clone()),
                None => None,
            },
        }
    }
}

/// The result of a step that may fail with a located error.
pub type CResult<T> = Result<T, CoreError>;

/// A result with its payload or its error seen as mathematical values.
pub open spec fn view_result<T: View>(r: Result<T, CoreError>) -> Result<T::V, CoreErrorView> {
    match r {
        Ok(value) => Ok(value@),
        Err(error) => Err(error@),
    }
}

impl Error {
    /// Raises the error at `loc`, with the advice for its kind.
    pub fn core_error(self, loc: &Location) -> (r: CoreError)
        ensures
            r@ == self@.located(*loc),
    {
        let help = match &self {
            Error::InvalidBase(_) => Some(
                "Help: inheritance in this version of Seahorse is limited to a few builtin types (Account and Enum). This will change in a future release.".to_owned(),
            ),
            Error::EnumAccount => None,
            Error::InvalidEnumVariant => Some(
                "Help: `Enum` is a special type in Seahorse - you may only define variants like this:\n\n    variant_name = <unique int>".to_owned(),
            ),
            Error::InvalidClassField => Some(
                "Help: make sure your field has nothing but a type annotation:\n\n    field_name: Type".to_owned(),
            ),
            Error::UnresolvedType(_) => None,
        };
        CoreError { kind: self, location: *loc, help }
    }
}

} // verus!
