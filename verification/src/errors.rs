//! The error taxonomy. Every failure aborts the whole operation and is
//! returned to the caller with identifying context: the offending token
//! or item label.

use vstd::prelude::*;

verus! {

/// An error of the tree-to-graph pipeline.
pub enum Error {
    /// Reading the source document or writing output failed.
    IoError,
    /// The document does not match the expected shape; carries the
    /// offending text.
    ParseError { detail: String },
    /// A requirement token names an entity that does not exist; carries
    /// the offending token.
    InvalidReferenceError { token: String },
    /// An item with requirement tokens declares no port; carries the
    /// item's label.
    MissingPortError { label: String },
    /// Accumulated output bytes are not valid text.
    EncodingError,
}

/// Mathematical model of an [`Error`]: its text payloads as character
/// sequences.
pub enum ErrV {
    IoError,
    ParseError { detail: Seq<char> },
    InvalidReferenceError { token: Seq<char> },
    MissingPortError { label: Seq<char> },
    EncodingError,
}

impl View for Error {
    type V = ErrV;

    open spec fn view(&self) -> ErrV {
        match self {
            Error::IoError => ErrV::IoError,
            Error::ParseError { detail } => ErrV::ParseError { detail: detail@ },
            Error::InvalidReferenceError { token } => ErrV::InvalidReferenceError {
                token: token@,
            },
            Error::MissingPortError { label } => ErrV::MissingPortError { label: label@ },
            Error::EncodingError => ErrV::EncodingError,
        }
    }
}

impl ErrV {
    /// Model of [`Error::message`].
    pub open spec fn message_spec(self) -> Seq<char> {
        match self {
            ErrV::IoError => "input/output error"@,
            ErrV::ParseError { detail } => "parse error: "@ + detail,
            ErrV::InvalidReferenceError { token } => "invalid reference: "@ + token,
            ErrV::MissingPortError { label } => "missing port for: "@ + label,
            ErrV::EncodingError => "output is not valid text"@,
        }
    }
}

impl Error {
    /// A human-readable description of the error, naming the offending
    /// token or item label where one exists.
    pub fn message(&self) -> (r: String)
        ensures
            r@ == self@.message_spec(),
    {
        match self {
            Error::IoError => String::from_str("input/output error"),
            Error::ParseError { detail } => {
                let mut s = String::from_str("parse error: ");
                s.append(detail.as_str());
                s
            },
            Error::InvalidReferenceError { token } => {
                let mut s = String::from_str("invalid reference: ");
                s.append(token.as_str());
                s
            },
            Error::MissingPortError { label } => {
                let mut s = String::from_str("missing port for: ");
                s.append(label.as_str());
                s
            },
            Error::EncodingError => String::from_str("output is not valid text"),
        }
    }
}

} // verus!
