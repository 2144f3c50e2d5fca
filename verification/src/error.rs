//! Errors: what went wrong, and where in the source if that is known.

use crate::location::{Location, LocationView};
use vstd::prelude::*;
use vstd::string::StringExecFns;

verus! {

/// What went wrong.
#[derive(Debug)]
pub enum ErrorKind {
    /// The file with this path could not be read.
    File(String),
    /// The program was started with the wrong number of arguments.
    Usage,
    /// A malformed token, or a special form of the wrong shape.
    Syntax,
    /// The value called is not callable, or is an object without the method.
    NotAFunction,
    /// An object was called with something other than an atom as method name.
    BadIndex,
    /// Evaluation nested deeper than the interpreter's limit.
    TooDeep,
}

/// The view of an [`ErrorKind`].
pub enum ErrorKindView {
    File(Seq<char>),
    Usage,
    Syntax,
    NotAFunction,
    BadIndex,
    TooDeep,
}

/// An error, with the source location it arose at where there is one.
#[derive(Debug)]
pub struct Error {
    location: Option<Location>,
    kind: ErrorKind,
}

/// The view of an [`Error`].
pub struct ErrorView {
    pub kind: ErrorKindView,
    pub location: Option<LocationView>,
}

impl View for ErrorKind {
    type V = ErrorKindView;

    open spec fn view(&self) -> ErrorKindView {
        match self {
            ErrorKind::File(path) => ErrorKindView::File(path@),
            ErrorKind::Usage => ErrorKindView::Usage,
            ErrorKind::Syntax => ErrorKindView::Syntax,
            ErrorKind::NotAFunction => ErrorKindView::NotAFunction,
            ErrorKind::BadIndex => ErrorKindView::BadIndex,
            ErrorKind::TooDeep => ErrorKindView::TooDeep,
        }
    }
}

impl View for Error {
    type V = ErrorView;

    closed spec fn view(&self) -> ErrorView {
        ErrorView {
            kind: self.kind@,
            location: match self.location {
                Some(l) => Some(l@),
                None => None,
            },
        }
    }
}

impl Clone for ErrorKind {
    fn clone(&self) -> (r: ErrorKind)
        ensures
            r == *self,
    {
        match self {
            ErrorKind::File(path) => ErrorKind::File(path.clone()),
            ErrorKind::Usage => ErrorKind::Usage,
            ErrorKind::Syntax => ErrorKind::Syntax,
            ErrorKind::NotAFunction => ErrorKind::NotAFunction,
            ErrorKind::BadIndex => ErrorKind::BadIndex,
            ErrorKind::TooDeep => ErrorKind::TooDeep,
        }
    }
}

/// What an error of kind `kind` says in a line of text.
pub open spec fn message_of(kind: ErrorKindView) -> Seq<char> {
    match kind {
        ErrorKindView::File(path) => "Can't open file `"@ + path + "`"@,
        ErrorKindView::Usage => "Usage: ab_lisp <path>"@,
        ErrorKindView::Syntax => "Syntax error"@,
        ErrorKindView::NotAFunction => "Attempt to call a non-function value"@,
        ErrorKindView::BadIndex => "Attempt to call a method that is not named by an atom"@,
        ErrorKindView::TooDeep => "Evaluation is nested too deep"@,
    }
}

/// The error of kind `kind` at `location`, as a view.
pub open spec fn error_at(kind: ErrorKindView, location: LocationView) -> ErrorView {
    ErrorView { kind, location: Some(location) }
}

impl Error {
    /// An error that belongs to no place in the source.
    pub fn new(kind: ErrorKind) -> (r: Error)
        ensures
            r@ == (ErrorView { kind: kind@, location: None }),
    {
        Error { location: None, kind }
    }

    /// An error at `location`.
    pub fn new_at(kind: ErrorKind, location: Location) -> (r: Error)
        ensures
            r@ == error_at(kind@, location@),
    {
        Error { location: Some(location), kind }
    }

    /// What the error says, in a line of text without the place.
    pub fn message(&self) -> (r: String)
        ensures
            r@ == message_of(self@.kind),
    {
        match &self.kind {
            ErrorKind::File(path) => String::from_str("Can't open file `").concat(
                path.as_str(),
            ).concat("`"),
            ErrorKind::Usage => String::from_str("Usage: ab_lisp <path>"),
            ErrorKind::Syntax => String::from_str("Syntax error"),
            ErrorKind::NotAFunction => String::from_str("Attempt to call a non-function value"),
            ErrorKind::BadIndex => String::from_str(
                "Attempt to call a method that is not named by an atom",
            ),
            ErrorKind::TooDeep => String::from_str("Evaluation is nested too deep"),
        }
    }

    /// What went wrong.
    pub fn kind(&self) -> (r: &ErrorKind)
        ensures
            r@ == self@.kind,
    {
        &self.kind
    }

    /// Where it went wrong, if that is known.
    pub fn location(&self) -> (r: Option<&Location>)
        ensures
            match r {
                Some(l) => self@.location == Some(l@),
                None => self@.location.is_none(),
            },
    {
        match &self.location {
            Some(l) => Some(l),
            None => None,
        }
    }
}

} // verus!
