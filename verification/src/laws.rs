//! What holds of every query that parses.

use vstd::prelude::*;
use crate::aggregate::{
    columns_of, complete_agg_in, headers_of, spec_by_keys,
    spec_multi_aggregate_operator,
};
use crate::ast::{ExprView, OperatorView};
use crate::chars::CharClass;
use crate::errors::ParseError;
use crate::headers::lemma_header_alone;
use crate::expr::{
    comma_in, lemma_expr_advances, lemma_sp, sourced_expr_in, spec_expr, spec_sourced_expr,
    spec_sourced_expr_list,
};
use crate::lexical::{optional, sp, spec_trim};
use crate::lists::{lemma_list1_all, list1};
use crate::locality::lemma_expr_alone;
use crate::keyword::KeywordView;
use crate::query::{
    filter_cond_in, multispace_in, operator_in, pipe_in, spec_filter, spec_operator,
    spec_parse_query, spec_pipeline, spec_query,
};

verus! {

/// The expression `column` stands in `s` from `from` to `to`, the
/// characters between the two parse to it when they stand alone, and
/// `header` is the text that it was written as there: those characters
/// without the white space at their start and end. The header, too, parses
/// alone to the expression, and all of it is taken.
pub open spec fn written_at(
    s: Seq<char>,
    from: int,
    to: int,
    header: Seq<char>,
    column: ExprView,
) -> bool {
    &&& 0 <= from < to <= s.len()
    &&& spec_expr(s, from) == Ok::<(ExprView, int), ParseError>((column, to))
    &&& spec_expr(s.subrange(from, to), 0) == Ok::<(ExprView, int), ParseError>(
        (column, to - from),
    )
    &&& header == spec_trim(s.subrange(from, to), CharClass::Whitespace)
    &&& spec_expr(header, 0) == Ok::<(ExprView, int), ParseError>((column, header.len() as int))
}

/// `header` is the text that the expression `column` was written as
/// somewhere in `s`.
pub open spec fn written_as(s: Seq<char>, header: Seq<char>, column: ExprView) -> bool {
    exists|from: int, to: int| written_at(s, from, to, header, column)
}

/// An operator that groups has a header for each key, and each header is
/// the text that its key was written as in `s`.
pub open spec fn headed(s: Seq<char>, op: OperatorView) -> bool {
    op matches OperatorView::MultiAggregate(m) ==> m.key_cols.len() == m.key_col_headers.len()
        && forall|k: int|
        0 <= k < m.key_cols.len() ==> written_as(s, #[trigger] m.key_col_headers[k], m.key_cols[k])
}

/// A key with its text, as a pair.
pub open spec fn key_written_in(s: Seq<char>) -> spec_fn((Seq<char>, ExprView)) -> bool {
    |key: (Seq<char>, ExprView)| written_as(s, key.0, key.1)
}

/// The text of a key is the text that the key was written as.
pub proof fn lemma_sourced_expr_written(s: Seq<char>, i: int)
    requires
        0 <= i <= s.len(),
    ensures
        spec_sourced_expr(s, i) matches Ok((key, _)) ==> written_as(s, key.0, key.1),
{
    lemma_sp(s, i);
    lemma_expr_advances(s, sp(s, i));
    lemma_expr_alone(s, sp(s, i));
    lemma_header_alone(s, i);
    if let Ok((key, n)) = spec_sourced_expr(s, i) {
        assert(written_at(s, sp(s, i), n, key.0, key.1));
    }
}

/// The text of each key of a list is the text that the key was written as.
pub proof fn lemma_keys_written(s: Seq<char>, i: int)
    requires
        0 <= i <= s.len(),
    ensures
        spec_sourced_expr_list(s, i) matches Ok((keys, _)) ==> forall|k: int|
            0 <= k < keys.len() ==> written_as(s, (#[trigger] keys[k]).0, keys[k].1),
{
    let item = sourced_expr_in(s);
    let holds = key_written_in(s);
    lemma_sp(s, i);
    assert forall|j: int| 0 <= j <= s.len() implies (#[trigger] item(j) matches Ok((v, _))
        ==> holds(v)) by {
        lemma_sourced_expr_written(s, j);
    }
    lemma_list1_all(s, sp(s, i), comma_in(s), item, holds);
}

/// The headers of an aggregate operator are the texts that its keys were
/// written as.
pub proof fn lemma_multi_aggregate_headed(s: Seq<char>, i: int)
    requires
        0 <= i <= s.len(),
    ensures
        spec_multi_aggregate_operator(s, i) matches Ok((op, _)) ==> headed(s, op),
{
    let item = complete_agg_in(s);
    let any = |f: (Seq<char>, crate::position::Positioned<crate::ast::AggregateFunctionView>)| true;
    lemma_sp(s, i);
    lemma_list1_all(s, sp(s, i), comma_in(s), item, any);
    if let Ok((_, n)) = list1(s, sp(s, i), comma_in(s), item) {
        lemma_sp(s, n);
        let at = sp(s, n);
        if let Ok((keys, _)) = spec_by_keys(s, at) {
            lemma_keys_written(s, at + "by"@.len());
            assert forall|k: int| 0 <= k < columns_of(keys).len() implies written_as(
                s,
                #[trigger] headers_of(keys)[k],
                columns_of(keys)[k],
            ) by {
                assert(headers_of(keys)[k] == keys[k].0);
            }
        }
    }
}

/// For an operator that parses, the headers of the keys that it groups by
/// are the texts that the keys were written as.
pub proof fn lemma_operator_headed(s: Seq<char>, i: int)
    requires
        0 <= i <= s.len(),
    ensures
        spec_operator(s, i) matches Ok((op, _)) ==> headed(s, op),
{
    lemma_multi_aggregate_headed(s, i);
}

/// An operator with its headers.
pub open spec fn headed_in(s: Seq<char>) -> spec_fn(OperatorView) -> bool {
    |op: OperatorView| headed(s, op)
}

/// In each operator of a pipeline that parses, the headers of the keys are
/// the texts that the keys were written as. The pipeline ends in the text.
pub proof fn lemma_pipeline_headed(s: Seq<char>, i: int)
    requires
        0 <= i <= s.len(),
    ensures
        spec_pipeline(s, i) matches Ok((ops, n)) ==> i <= n <= s.len() && forall|k: int|
            0 <= k < ops.len() ==> headed(s, #[trigger] ops[k]),
{
    let item = operator_in(s);
    let holds = headed_in(s);
    if i < s.len() {
        lemma_sp(s, i + 1);
        assert forall|j: int| 0 <= j <= s.len() implies (#[trigger] item(j) matches Ok((v, _))
            ==> holds(v)) by {
            lemma_operator_headed(s, j);
        }
        lemma_list1_all(s, sp(s, i + 1), pipe_in(s), item, holds);
        if let Ok((_, n)) = list1(s, sp(s, i + 1), pipe_in(s), item) {
            lemma_sp(s, n);
        }
    }
}

/// A query that parses takes the whole text, and in each of its operators
/// that groups, the header of each key is the text that the key was written
/// as in the query: the characters that the key's expression took, without
/// the white space at their start and end. Those characters parse to the
/// key when they stand alone, and so does the header.
pub proof fn lemma_query_round_trip(s: Seq<char>, i: int)
    requires
        0 <= i <= s.len(),
    ensures
        spec_query(s, i) matches Ok((q, n)) ==> n == s.len() && forall|k: int|
            0 <= k < q.operators.len() ==> headed(s, #[trigger] q.operators[k]),
{
    let any = |term: KeywordView| true;
    lemma_sp(s, i);
    lemma_list1_all(s, sp(s, i), multispace_in(s), filter_cond_in(s), any);
    if let Ok((_, n)) = optional(spec_filter(s, sp(s, i)), sp(s, i)) {
        lemma_sp(s, n);
        lemma_pipeline_headed(s, sp(s, n));
    }
}

/// The same of the query that parsing a whole text gives.
pub proof fn lemma_parse_query_round_trip(s: Seq<char>)
    ensures
        spec_parse_query(s) matches Ok(q) ==> forall|k: int|
            0 <= k < q.operators.len() ==> headed(s, #[trigger] q.operators[k]),
{
    lemma_query_round_trip(s, 0);
}

} // verus!
