//! The ways in which a query can fail to parse.

use vstd::prelude::*;
use crate::position::QueryPosition;

verus! {

/// The kinds of syntax error.
#[derive(Debug, PartialEq, Eq, Clone, Copy)]
pub enum SyntaxErrors {
    /// No rule of the grammar matches the text at this place.
    StartOfError,
    /// A `"` was opened and never closed.
    UnterminatedDoubleQuotedString,
    /// A `'` was opened and never closed.
    UnterminatedSingleQuotedString,
    /// A `(` was opened and never closed.
    MissingParen,
    /// The word where an operator must stand is not the name of one.
    NotAnOperator,
    /// The word where an aggregate function must stand is not the name of one.
    NotAnAggregateOperator,
}

/// Why a rule of the grammar did not produce a value.
#[derive(Debug, PartialEq, Eq, Clone, Copy)]
pub enum ParseError {
    /// The rule does not match at `at`. A caller may try another rule.
    Error { at: QueryPosition },
    /// A construct that began at `start` is broken at `end`. No other rule
    /// is tried: the whole parse fails with this.
    Failure { kind: SyntaxErrors, start: QueryPosition, end: QueryPosition },
}

/// A syntax error, as a caller of the parser sees it.
#[derive(Debug, PartialEq, Eq, Clone, Copy)]
pub struct SyntaxError {
    pub kind: SyntaxErrors,
    pub start: QueryPosition,
    pub end: QueryPosition,
}

impl SyntaxError {
    /// The error does not end before it starts.
    pub open spec fn wf(self) -> bool {
        self.start.0 <= self.end.0
    }
}

impl ParseError {
    /// A failure does not end before it starts.
    pub open spec fn wf(self) -> bool {
        match self {
            ParseError::Error { .. } => true,
            ParseError::Failure { start, end, .. } => start.0 <= end.0,
        }
    }

    /// Whether no other rule may be tried after this.
    pub open spec fn is_fatal(self) -> bool {
        self is Failure
    }

    /// Tests if no other rule may be tried after this.
    pub fn fatal(&self) -> (r: bool)
        ensures
            r == self.is_fatal(),
    {
        match self {
            ParseError::Error { .. } => false,
            ParseError::Failure { .. } => true,
        }
    }

    /// The error as the caller of the whole parse sees it: a failure keeps
    /// its kind and span, and a mismatch becomes a `StartOfError` at its
    /// place.
    pub open spec fn report(self) -> SyntaxError {
        match self {
            ParseError::Error { at } => SyntaxError {
                kind: SyntaxErrors::StartOfError,
                start: at,
                end: at,
            },
            ParseError::Failure { kind, start, end } => SyntaxError { kind, start, end },
        }
    }

    /// The error as the caller of the whole parse sees it.
    pub fn to_syntax_error(&self) -> (e: SyntaxError)
        ensures
            e == self.report(),
            self.wf() ==> e.wf(),
    {
        match self {
            ParseError::Error { at } => SyntaxError {
                kind: SyntaxErrors::StartOfError,
                start: *at,
                end: *at,
            },
            ParseError::Failure { kind, start, end } => SyntaxError {
                kind: *kind,
                start: *start,
                end: *end,
            },
        }
    }
}

} // verus!
