//! The engine's error type. Every error is terminal for a run: there is no
//! retry, no per-record skip, and no partial result.

use vstd::prelude::*;

use crate::value::{JVal, Value, ValueKind};

verus! {

/// The shape an effect or a resolution step demanded of its input.
#[derive(Clone, Copy, Debug, PartialEq, Eq, Structural)]
pub enum ExpectedShape {
    /// A JSON object.
    Object,
    /// A JSON object or a JSON array.
    ObjectOrArray,
    /// A JSON number.
    NumberShape,
}

/// Why a conversion run failed.
#[derive(Debug, PartialEq, Eq)]
pub enum Error {
    /// The mapping document violates the mapping grammar; `path` locates the
    /// offending place inside the document (for example `col.effects[1].kind`).
    MalformedDocument { path: String },
    /// An effect entry carried a discriminator outside the closed catalog;
    /// `path` locates the entry, `kind` is the unrecognized discriminator.
    UnknownEffectKind { path: String, kind: String },
    /// A column's pointer did not resolve against a record; carries the
    /// literal pointer string.
    MissingField { pointer: String },
    /// An effect received a value of the wrong shape; carries the expected
    /// shape and the actual value's kind.
    TypeMismatch { expected: ExpectedShape, actual: ValueKind },
    /// A read or write on an input, mapping, or output collaborator failed.
    IOFailure { detail: String },
}

/// The mathematical shape of an `Error`.
#[verifier::ext_equal]
pub enum ErrorV {
    MalformedDocument { path: Seq<char> },
    UnknownEffectKind { path: Seq<char>, kind: Seq<char> },
    MissingField { pointer: Seq<char> },
    TypeMismatch { expected: ExpectedShape, actual: ValueKind },
    IOFailure { detail: Seq<char> },
}

impl View for Error {
    type V = ErrorV;

    open spec fn view(&self) -> ErrorV {
        match self {
            Error::MalformedDocument { path } => ErrorV::MalformedDocument { path: path@ },
            Error::UnknownEffectKind { path, kind } => ErrorV::UnknownEffectKind {
                path: path@,
                kind: kind@,
            },
            Error::MissingField { pointer } => ErrorV::MissingField { pointer: pointer@ },
            Error::TypeMismatch { expected, actual } => ErrorV::TypeMismatch {
                expected: *expected,
                actual: *actual,
            },
            Error::IOFailure { detail } => ErrorV::IOFailure { detail: detail@ },
        }
    }
}

/// The mathematical shape of a resolution result.
pub open spec fn res_view(r: Result<Value, Error>) -> Result<JVal, ErrorV> {
    match r {
        Ok(v) => Ok(v@),
        Err(e) => Err(e@),
    }
}

} // verus!
