use vstd::prelude::*;

use crate::cell::{Date, Kind};

verus! {

/// The type a strict coercion asked for.
#[derive(Clone, Copy, Debug, PartialEq, Eq, Structural)]
pub enum Expected {
    Text,
    Number,
    Date,
}

/// Why a query was refused.
#[derive(Clone, Debug, PartialEq, Eq)]
#[allow(inconsistent_fields)]
pub enum QueryError {
    /// A header or data row has no cell at this column.
    MissingColumn { index: usize },
    /// The cell at this column is not of the kind the coercion needs.
    TypeMismatch { expected: Expected, actual: Kind, index: usize },
    /// The header text at this column differs from the configured one.
    HeaderMismatch { index: usize, expected: String, actual: String },
    /// No data row carries the requested date.
    NoMatch { target: Date },
    /// Two data rows (positions among the data rows) carry the requested date.
    MultipleMatches { target: Date, first: usize, second: usize },
}

/// The mathematical value of a [`QueryError`]: texts become character sequences.
#[allow(inconsistent_fields)]
pub enum Failure {
    MissingColumn { index: usize },
    TypeMismatch { expected: Expected, actual: Kind, index: usize },
    HeaderMismatch { index: usize, expected: Seq<char>, actual: Seq<char> },
    NoMatch { target: Date },
    MultipleMatches { target: Date, first: usize, second: usize },
}

impl View for QueryError {
    type V = Failure;

    open spec fn view(&self) -> Failure {
        match self {
            QueryError::MissingColumn { index } => Failure::MissingColumn { index: *index },
            QueryError::TypeMismatch { expected, actual, index } => Failure::TypeMismatch {
                expected: *expected,
                actual: *actual,
                index: *index,
            },
            QueryError::HeaderMismatch { index, expected, actual } => Failure::HeaderMismatch {
                index: *index,
                expected: expected@,
                actual: actual@,
            },
            QueryError::NoMatch { target } => Failure::NoMatch { target: *target },
            QueryError::MultipleMatches { target, first, second } => Failure::MultipleMatches {
                target: *target,
                first: *first,
                second: *second,
            },
        }
    }
}

/// The mathematical value of a fallible result.
pub open spec fn outcome<T>(r: Result<T, QueryError>) -> Result<T, Failure> {
    match r {
        Ok(v) => Ok(v),
        Err(e) => Err(e@),
    }
}

} // verus!
