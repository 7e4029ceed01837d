//! A parser for a pipe-delimited log query language: a keyword search
//! followed by `| operator | operator ...` stages. It turns the text of a
//! query into a syntax tree and does not run the query.
//!
//! [`parse_query`] parses a whole text. It gives the [`Query`], or the one
//! [`SyntaxError`] with its kind and the byte offsets between which it
//! lies. The rules of the grammar are functions of their own, in the
//! modules `lexical`, `expr`, `inline`, `aggregate`, `sort` and `query`.
//! Each of them is applied to a [`Source`] at a character index and gives
//! its value with the index after it, or a [`ParseError`]: a mismatch,
//! after which a caller may try another rule, or a failure, which ends the
//! whole parse.
//!
//! What a rule means is a spec function on the characters of the text, and
//! the rule returns exactly that. The module `laws` states what holds of
//! every query that parses, `locality` that an expression parses the same
//! when its characters stand alone, `headers` that the header of a key does
//! so, and `recovery` which words pass for the name of an operator.

pub mod aggregate;
pub mod ast;
pub mod chars;
pub mod errors;
pub mod expr;
pub mod headers;
pub mod inline;
pub mod keyword;
pub mod laws;
pub mod lexical;
pub mod lists;
pub mod locality;
pub mod position;
pub mod query;
pub mod recovery;
pub mod sort;
pub mod source;

pub use ast::{
    AggregateFunction, BinaryOp, ComparisonOp, Expr, FieldMode, InlineOperator,
    MultiAggregateOperator, NumberLiteral, Operator, Query, SortMode, SortOperator, UnaryOp, Value,
};
pub use errors::{ParseError, SyntaxError, SyntaxErrors};
pub use keyword::Keyword;
pub use position::{Positioned, QueryPosition};
pub use query::parse_query;
pub use source::Source;
