//! The library's error type.

use vstd::prelude::*;

use crate::schema::PrimitiveType;
use crate::text::{decimal, decimal_text};

verus! {

/// Why an operation failed.
#[derive(Debug, PartialEq)]
pub enum Error {
    /// An error without a more specific class.
    Generic(String),
    /// A broken internal expectation, such as an engine result of the wrong length.
    InternalError(String),
    /// A referenced column does not exist.
    MissingColumn(String),
    /// Required data is absent.
    MissingData(String),
    /// A column does not have the requested type.
    UnexpectedColumnType(String),
    /// A text could not be parsed as a value of the given type.
    ParseError(String, PrimitiveType),
    /// The requested operation is not supported.
    Unsupported(String),
    /// A location does not name a table.
    InvalidTableLocation(String),
    /// A text is no URL.
    InvalidUrl(String),
    /// A checkpoint does not fit the log around it.
    InvalidCheckpoint(String),
    /// Text that should have been JSON is not.
    MalformedJson(String),
    /// A selection vector does not fit its data.
    InvalidSelectionVector(String),
    /// The operation was cancelled.
    Cancelled,
}

/// What an [`Error`] says, with its texts as character sequences.
pub enum ErrorV {
    Generic(Seq<char>),
    InternalError(Seq<char>),
    MissingColumn(Seq<char>),
    MissingData(Seq<char>),
    UnexpectedColumnType(Seq<char>),
    ParseError(Seq<char>, PrimitiveType),
    Unsupported(Seq<char>),
    InvalidTableLocation(Seq<char>),
    InvalidUrl(Seq<char>),
    InvalidCheckpoint(Seq<char>),
    MalformedJson(Seq<char>),
    InvalidSelectionVector(Seq<char>),
    Cancelled,
}

impl View for Error {
    type V = ErrorV;

    open spec fn view(&self) -> ErrorV {
        match *self {
            Error::Generic(m) => ErrorV::Generic(m@),
            Error::InternalError(m) => ErrorV::InternalError(m@),
            Error::MissingColumn(m) => ErrorV::MissingColumn(m@),
            Error::MissingData(m) => ErrorV::MissingData(m@),
            Error::UnexpectedColumnType(m) => ErrorV::UnexpectedColumnType(m@),
            Error::ParseError(m, t) => ErrorV::ParseError(m@, t),
            Error::Unsupported(m) => ErrorV::Unsupported(m@),
            Error::InvalidTableLocation(m) => ErrorV::InvalidTableLocation(m@),
            Error::InvalidUrl(m) => ErrorV::InvalidUrl(m@),
            Error::InvalidCheckpoint(m) => ErrorV::InvalidCheckpoint(m@),
            Error::MalformedJson(m) => ErrorV::MalformedJson(m@),
            Error::InvalidSelectionVector(m) => ErrorV::InvalidSelectionVector(m@),
            Error::Cancelled => ErrorV::Cancelled,
        }
    }
}

impl Error {
    /// A [`Error::Generic`] with the given message.
    pub fn generic(message: &str) -> (error: Error)
        ensures
            error@ == ErrorV::Generic(message@),
    {
        Error::Generic(message.to_string())
    }

    /// A [`Error::Unsupported`] with the given message.
    pub fn unsupported(message: &str) -> (error: Error)
        ensures
            error@ == ErrorV::Unsupported(message@),
    {
        Error::Unsupported(message.to_string())
    }

    /// The message this error carries.
    pub fn message(&self) -> (message: String)
        ensures
            message@ == self@.message(),
    {
        match self {
            Error::Generic(m) => m.clone(),
            Error::InternalError(m) => m.clone(),
            Error::MissingColumn(m) => m.clone(),
            Error::MissingData(m) => m.clone(),
            Error::UnexpectedColumnType(m) => m.clone(),
            Error::ParseError(m, _) => m.clone(),
            Error::Unsupported(m) => m.clone(),
            Error::InvalidTableLocation(m) => m.clone(),
            Error::InvalidUrl(m) => m.clone(),
            Error::InvalidCheckpoint(m) => m.clone(),
            Error::MalformedJson(m) => m.clone(),
            Error::InvalidSelectionVector(m) => m.clone(),
            Error::Cancelled => "Operation cancelled".to_string(),
        }
    }
}

impl ErrorV {
    pub open spec fn message(self) -> Seq<char> {
        match self {
            ErrorV::Generic(m) => m,
            ErrorV::InternalError(m) => m,
            ErrorV::MissingColumn(m) => m,
            ErrorV::MissingData(m) => m,
            ErrorV::UnexpectedColumnType(m) => m,
            ErrorV::ParseError(m, _) => m,
            ErrorV::Unsupported(m) => m,
            ErrorV::InvalidTableLocation(m) => m,
            ErrorV::InvalidUrl(m) => m,
            ErrorV::InvalidCheckpoint(m) => m,
            ErrorV::MalformedJson(m) => m,
            ErrorV::InvalidSelectionVector(m) => m,
            ErrorV::Cancelled => "Operation cancelled"@,
        }
    }
}

/// The result of a fallible operation.
pub type DeltaResult<T> = Result<T, Error>;

/// An optional value taken by its view.
pub open spec fn option_view<T: View>(option: Option<T>) -> Option<T::V> {
    match option {
        Some(t) => Some(t@),
        None => None,
    }
}

/// What is said when two lengths that must agree do not.
pub open spec fn length_mismatch(
    what: Seq<char>,
    got: nat,
    against: Seq<char>,
    want: nat,
) -> ErrorV {
    ErrorV::InternalError(
        what + " length "@ + decimal(got) + " != "@ + against + " length "@ + decimal(want),
    )
}

/// Checks that a result has as many rows as it must have.
pub fn check_length(what: &str, got: usize, against: &str, want: usize) -> (r: DeltaResult<()>)
    ensures
        match r {
            Ok(_) => got == want,
            Err(e) => got != want && e@ == length_mismatch(
                what@,
                got as nat,
                against@,
                want as nat,
            ),
        },
{
    if got == want {
        return Ok(());
    }
    let message = what.to_string().concat(" length ").concat(
        decimal_text(got as u64).as_str(),
    ).concat(" != ").concat(against).concat(" length ").concat(decimal_text(want as u64).as_str());
    Err(Error::InternalError(message))
}

} // verus!
