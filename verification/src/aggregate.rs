//! The aggregate functions, and the operator that combines them with the
//! keys to group by.

use vstd::prelude::*;
use vstd::string::StringExecFns;
use crate::ast::{
    AggregateFunction, AggregateFunctionView, Expr, ExprView, MultiAggregateOperator,
    MultiAggregateOperatorView, Operator, OperatorView,
};
use crate::chars::{CharClass, digit_value};
use crate::errors::{ParseError, SyntaxErrors};
use crate::expr::{
    comma_in, expr, sourced_expr_list, spec_expr, spec_sourced_expr_list,
};
use crate::inline::{name_or, parens, spec_parens};
use crate::lexical::{
    Outcome, Parsed, agrees, at_char, has_char, miss, optional, or_else, skip, sp,
    spec_tag, spec_with_pos, spec_word_ident, spec_ws_tag, tag, with_pos, within, word_ident,
    ws_tag,
};
use crate::lists::{
    lemma_list_ends, lemma_list_fails, lemma_list_grows, lemma_none, lemma_pushed, lemma_single,
    list0, list1, list_rest,
};
use crate::position::{Positioned, lemma_byte_offset_monotonic, mark};
use crate::recovery::{did_you_mean_aggregate, pct_fn, spec_did_you_mean_aggregate, spec_pct_fn};
use crate::source::Source;

verus! {

/// A comma after blanks.
pub open spec fn spec_ws_comma(s: Seq<char>, i: int) -> Parsed<()> {
    if has_char(s, sp(s, i), ',') {
        Ok(((), sp(s, i) + 1))
    } else {
        miss(s, sp(s, i))
    }
}

/// The rule for a comma after blanks, as a function of the index.
pub open spec fn ws_comma_in(s: Seq<char>) -> spec_fn(int) -> Parsed<()> {
    |k: int| spec_ws_comma(s, k)
}

/// The rule for an expression, as a function of the index.
pub open spec fn expr_in(s: Seq<char>) -> spec_fn(int) -> Parsed<ExprView> {
    |k: int| spec_expr(s, k)
}

/// The arguments of a function: after blanks, `(`, no, one or more
/// expressions with commas between them, and `)`. The span runs from the
/// one parenthesis to behind the other. A missing `)` is a failure from the
/// `(` to where the `)` is missing.
pub open spec fn spec_arg_list(s: Seq<char>, i: int) -> Parsed<Positioned<Seq<ExprView>>> {
    let start = sp(s, i);
    if has_char(s, start, '(') {
        match list0(s, sp(s, start + 1), ws_comma_in(s), expr_in(s)) {
            Ok((args, n)) => if has_char(s, sp(s, n), ')') {
                Ok(
                    (
                        Positioned {
                            start_pos: mark(s, start),
                            end_pos: mark(s, sp(s, n) + 1),
                            value: args,
                        },
                        sp(s, n) + 1,
                    ),
                )
            } else {
                Err(
                    ParseError::Failure {
                        kind: SyntaxErrors::MissingParen,
                        start: mark(s, start),
                        end: mark(s, sp(s, n)),
                    },
                )
            },
            Err(e) => Err(e),
        }
    } else {
        miss(s, start)
    }
}

/// The expressions between the parentheses of an argument list.
fn args(src: &Source, pos: usize) -> (r: Outcome<Vec<Expr>>)
    requires
        pos <= src@.len(),
    ensures
        agrees(r, list0(src@, pos as int, ws_comma_in(src@), expr_in(src@))),
        within(r, pos, src@.len()),
        r matches Err(e) ==> e.wf(),
{
    let ghost sep = ws_comma_in(src@);
    let ghost item = expr_in(src@);
    let mut list: Vec<Expr> = Vec::new();
    let (first, after) = match expr(src, pos) {
        Ok(found) => found,
        Err(e) => {
            if e.fatal() {
                return Err(e);
            }
            proof {
                lemma_none(list);
            }
            return Ok((list, pos));
        },
    };
    let ghost goal = list_rest(src@, after as int, seq![first.deep_view()], sep, item);
    let mut at: usize = after;
    list.push(first);
    proof {
        lemma_single(list, first);
    }
    loop
        invariant
            pos < at <= src@.len(),
            sep == ws_comma_in(src@),
            item == expr_in(src@),
            list0(src@, pos as int, sep, item) == goal,
            list_rest(src@, at as int, list.deep_view(), sep, item) == goal,
        ensures
            pos < at <= src@.len(),
            goal == Ok::<(Seq<ExprView>, int), ParseError>((list.deep_view(), at as int)),
        decreases src@.len() - at,
    {
        let k = skip(src, at, CharClass::MultiSpace);
        if !at_char(src, k, ',') {
            proof {
                lemma_list_ends(src@, at as int, list.deep_view(), sep, item);
            }
            break ;
        }
        match expr(src, k + 1) {
            Err(e) => {
                if e.fatal() {
                    proof {
                        lemma_list_fails(src@, at as int, list.deep_view(), sep, item, e);
                    }
                    return Err(e);
                }
                proof {
                    lemma_list_ends(src@, at as int, list.deep_view(), sep, item);
                }
                break ;
            },
            Ok((arg, next)) => {
                let ghost before = list;
                list.push(arg);
                proof {
                    lemma_list_grows(
                        src@,
                        at as int,
                        before.deep_view(),
                        sep,
                        item,
                        arg.deep_view(),
                        next as int,
                    );
                    lemma_pushed(before, list, arg);
                }
                at = next;
            },
        }
    }
    Ok((list, at))
}

/// The rule [`spec_arg_list`], applied at `pos`.
pub fn arg_list(src: &Source, pos: usize) -> (r: Outcome<Positioned<Vec<Expr>>>)
    requires
        pos <= src@.len(),
    ensures
        agrees(r, spec_arg_list(src@, pos as int)),
        within(r, pos, src@.len()),
        r matches Err(e) ==> e.wf(),
        r matches Ok((p, _)) ==> p.wf(),
{
    let start = skip(src, pos, CharClass::MultiSpace);
    if !at_char(src, start, '(') {
        return Err(ParseError::Error { at: src.position(start) });
    }
    let (list, n) = args(src, skip(src, start + 1, CharClass::MultiSpace))?;
    let k = skip(src, n, CharClass::MultiSpace);
    if at_char(src, k, ')') {
        proof {
            lemma_byte_offset_monotonic(src@, start as int, k + 1);
        }
        Ok(
            (
                Positioned {
                    start_pos: src.position(start),
                    end_pos: src.position(k + 1),
                    value: list,
                },
                k + 1,
            ),
        )
    } else {
        proof {
            lemma_byte_offset_monotonic(src@, start as int, k as int);
        }
        Err(
            ParseError::Failure {
                kind: SyntaxErrors::MissingParen,
                start: src.position(start),
                end: src.position(k),
            },
        )
    }
}

/// `count`, after blanks.
pub open spec fn spec_count(s: Seq<char>, i: int) -> Parsed<Positioned<AggregateFunctionView>> {
    spec_with_pos(
        s,
        sp(s, i),
        match spec_tag(s, sp(s, i), "count"@) {
            Ok((_, n)) => Ok((AggregateFunctionView::Count, n)),
            Err(e) => Err(e),
        },
    )
}

/// The word `count`.
fn count_body(src: &Source, pos: usize) -> (r: Outcome<AggregateFunction>)
    requires
        pos <= src@.len(),
    ensures
        agrees(
            r,
            match spec_tag(src@, pos as int, "count"@) {
                Ok((_, n)) => Ok((AggregateFunctionView::Count, n)),
                Err(e) => Err(e),
            },
        ),
        within(r, pos, src@.len()),
        r matches Err(e) ==> e.wf(),
{
    let (_, n) = tag(src, pos, "count")?;
    Ok((AggregateFunction::Count, n))
}

/// The rule [`spec_count`], applied at `pos`.
pub fn count(src: &Source, pos: usize) -> (r: Outcome<Positioned<AggregateFunction>>)
    requires
        pos <= src@.len(),
    ensures
        agrees(r, spec_count(src@, pos as int)),
        within(r, pos, src@.len()),
        r matches Err(e) ==> e.wf(),
        r matches Ok((p, _)) ==> p.wf() && p.deep_view().value.wf(),
{
    let start = skip(src, pos, CharClass::MultiSpace);
    with_pos(src, start, count_body(src, start))
}

/// `avg(EXPR)` or `average(EXPR)`, from `i`, which stands after the blanks.
pub open spec fn spec_average_body(s: Seq<char>, i: int) -> Parsed<AggregateFunctionView> {
    match or_else(spec_ws_tag(s, i, "avg"@), spec_ws_tag(s, i, "average"@)) {
        Ok((_, n)) => match spec_parens(s, n) {
            Ok((column, a)) => Ok((AggregateFunctionView::Average { column }, sp(s, a))),
            Err(e) => Err(e),
        },
        Err(e) => Err(e),
    }
}

/// `avg(EXPR)` or `average(EXPR)`.
pub open spec fn spec_average(s: Seq<char>, i: int) -> Parsed<Positioned<AggregateFunctionView>> {
    spec_with_pos(s, sp(s, i), spec_average_body(s, sp(s, i)))
}

/// The rule [`spec_average_body`], applied at `pos`.
fn average_body(src: &Source, pos: usize) -> (r: Outcome<AggregateFunction>)
    requires
        pos <= src@.len(),
    ensures
        agrees(r, spec_average_body(src@, pos as int)),
        within(r, pos, src@.len()),
        r matches Err(e) ==> e.wf(),
{
    let (_, n) = match ws_tag(src, pos, "avg") {
        Ok(found) => found,
        Err(_) => ws_tag(src, pos, "average")?,
    };
    let (column, a) = parens(src, n)?;
    Ok((AggregateFunction::Average { column }, skip(src, a, CharClass::MultiSpace)))
}

/// The rule [`spec_average`], applied at `pos`.
pub fn average(src: &Source, pos: usize) -> (r: Outcome<Positioned<AggregateFunction>>)
    requires
        pos <= src@.len(),
    ensures
        agrees(r, spec_average(src@, pos as int)),
        within(r, pos, src@.len()),
        r matches Err(e) ==> e.wf(),
        r matches Ok((p, _)) ==> p.wf() && p.deep_view().value.wf(),
{
    let start = skip(src, pos, CharClass::MultiSpace);
    with_pos(src, start, average_body(src, start))
}

/// `count_distinct[(EXPR, ...)]`, from `i`, which stands after the blanks.
pub open spec fn spec_count_distinct_body(s: Seq<char>, i: int) -> Parsed<AggregateFunctionView> {
    match spec_ws_tag(s, i, "count_distinct"@) {
        Ok((_, n)) => match optional(spec_arg_list(s, sp(s, n)), sp(s, n)) {
            Ok((column, m)) => Ok((AggregateFunctionView::CountDistinct { column }, sp(s, m))),
            Err(e) => Err(e),
        },
        Err(e) => Err(e),
    }
}

/// `count_distinct[(EXPR, ...)]`.
pub open spec fn spec_count_distinct(s: Seq<char>, i: int) -> Parsed<
    Positioned<AggregateFunctionView>,
> {
    spec_with_pos(s, sp(s, i), spec_count_distinct_body(s, sp(s, i)))
}

/// The rule [`spec_count_distinct_body`], applied at `pos`.
fn count_distinct_body(src: &Source, pos: usize) -> (r: Outcome<AggregateFunction>)
    requires
        pos <= src@.len(),
    ensures
        agrees(r, spec_count_distinct_body(src@, pos as int)),
        within(r, pos, src@.len()),
        r matches Err(e) ==> e.wf(),
        r matches Ok((func, _)) ==> func.deep_view().wf(),
{
    let (_, n) = ws_tag(src, pos, "count_distinct")?;
    let j = skip(src, n, CharClass::MultiSpace);
    let (column, m) = match arg_list(src, j) {
        Ok((list, m)) => (Some(list), m),
        Err(ParseError::Error { .. }) => (None, j),
        Err(e) => {
            return Err(e);
        },
    };
    Ok((AggregateFunction::CountDistinct { column }, skip(src, m, CharClass::MultiSpace)))
}

/// The rule [`spec_count_distinct`], applied at `pos`.
pub fn count_distinct(src: &Source, pos: usize) -> (r: Outcome<Positioned<AggregateFunction>>)
    requires
        pos <= src@.len(),
    ensures
        agrees(r, spec_count_distinct(src@, pos as int)),
        within(r, pos, src@.len()),
        r matches Err(e) ==> e.wf(),
        r matches Ok((p, _)) ==> p.wf() && p.deep_view().value.wf(),
{
    let start = skip(src, pos, CharClass::MultiSpace);
    with_pos(src, start, count_distinct_body(src, start))
}

/// `sum(EXPR)`, from `i`, which stands after the blanks.
pub open spec fn spec_sum_body(s: Seq<char>, i: int) -> Parsed<AggregateFunctionView> {
    match spec_ws_tag(s, i, "sum"@) {
        Ok((_, n)) => match spec_parens(s, n) {
            Ok((column, a)) => Ok((AggregateFunctionView::Sum { column }, sp(s, a))),
            Err(e) => Err(e),
        },
        Err(e) => Err(e),
    }
}

/// `sum(EXPR)`.
pub open spec fn spec_sum(s: Seq<char>, i: int) -> Parsed<Positioned<AggregateFunctionView>> {
    spec_with_pos(s, sp(s, i), spec_sum_body(s, sp(s, i)))
}

/// The rule [`spec_sum_body`], applied at `pos`.
fn sum_body(src: &Source, pos: usize) -> (r: Outcome<AggregateFunction>)
    requires
        pos <= src@.len(),
    ensures
        agrees(r, spec_sum_body(src@, pos as int)),
        within(r, pos, src@.len()),
        r matches Err(e) ==> e.wf(),
{
    let (_, n) = ws_tag(src, pos, "sum")?;
    let (column, a) = parens(src, n)?;
    Ok((AggregateFunction::Sum { column }, skip(src, a, CharClass::MultiSpace)))
}

/// The rule [`spec_sum`], applied at `pos`.
pub fn sum(src: &Source, pos: usize) -> (r: Outcome<Positioned<AggregateFunction>>)
    requires
        pos <= src@.len(),
    ensures
        agrees(r, spec_sum(src@, pos as int)),
        within(r, pos, src@.len()),
        r matches Err(e) ==> e.wf(),
        r matches Ok((p, _)) ==> p.wf() && p.deep_view().value.wf(),
{
    let start = skip(src, pos, CharClass::MultiSpace);
    with_pos(src, start, sum_body(src, start))
}

/// The hundredths that two decimal digits stand for.
pub open spec fn hundredths(digits: Seq<char>) -> u8 {
    (10 * digit_value(digits[0]) + digit_value(digits[1])) as u8
}

/// A percentile: after blanks, its name with the two digits, and an
/// expression between `(` and `)`, the `(` straight behind the digits. The
/// span ends behind the `)`, before the blanks that follow.
pub open spec fn spec_p_nn(s: Seq<char>, i: int) -> Parsed<Positioned<AggregateFunctionView>> {
    match spec_pct_fn(s, sp(s, i)) {
        Ok((digits, a)) => if has_char(s, a, '(') {
            match spec_expr(s, a + 1) {
                Ok((column, b)) => if has_char(s, b, ')') {
                    Ok(
                        (
                            Positioned {
                                start_pos: mark(s, sp(s, i)),
                                end_pos: mark(s, b + 1),
                                value: AggregateFunctionView::Percentile {
                                    percentile: hundredths(digits),
                                    percentile_str: digits,
                                    column,
                                },
                            },
                            sp(s, b + 1),
                        ),
                    )
                } else {
                    miss(s, b)
                },
                Err(e) => Err(e),
            }
        } else {
            miss(s, a)
        },
        Err(e) => Err(e),
    }
}

/// The rule [`spec_p_nn`], applied at `pos`.
pub fn p_nn(src: &Source, pos: usize) -> (r: Outcome<Positioned<AggregateFunction>>)
    requires
        pos <= src@.len(),
    ensures
        agrees(r, spec_p_nn(src@, pos as int)),
        within(r, pos, src@.len()),
        r matches Err(e) ==> e.wf(),
        r matches Ok((p, _)) ==> p.wf() && p.deep_view().value.wf(),
{
    let start = skip(src, pos, CharClass::MultiSpace);
    let (digits, a) = pct_fn(src, start)?;
    if !at_char(src, a, '(') {
        return Err(ParseError::Error { at: src.position(a) });
    }
    let (column, b) = expr(src, a + 1)?;
    if !at_char(src, b, ')') {
        return Err(ParseError::Error { at: src.position(b) });
    }
    let tens: u32 = (src.char_at(a - 2) as u32) - 48;
    let ones: u32 = (src.char_at(a - 1) as u32) - 48;
    let percentile: u8 = (10 * tens + ones) as u8;
    proof {
        lemma_byte_offset_monotonic(src@, start as int, b + 1);
    }
    Ok(
        (
            Positioned {
                start_pos: src.position(start),
                end_pos: src.position(b + 1),
                value: AggregateFunction::Percentile { percentile, percentile_str: digits, column },
            },
            skip(src, b + 1, CharClass::MultiSpace),
        ),
    )
}

/// An aggregate function. The word at `i` has to be the name of one, or
/// the parse fails. Then the first of `count_distinct`, `count`, the
/// average, `sum` and the percentile that matches is taken.
pub open spec fn spec_aggregate_function(s: Seq<char>, i: int) -> Parsed<
    Positioned<AggregateFunctionView>,
> {
    match spec_did_you_mean_aggregate(s, i) {
        Ok(_) => or_else(
            spec_count_distinct(s, i),
            or_else(
                spec_count(s, i),
                or_else(spec_average(s, i), or_else(spec_sum(s, i), spec_p_nn(s, i))),
            ),
        ),
        Err(e) => Err(e),
    }
}

/// The rule [`spec_aggregate_function`], applied at `pos`.
pub fn aggregate_function(src: &Source, pos: usize) -> (r: Outcome<Positioned<AggregateFunction>>)
    requires
        pos <= src@.len(),
    ensures
        agrees(r, spec_aggregate_function(src@, pos as int)),
        within(r, pos, src@.len()),
        r matches Err(e) ==> e.wf(),
        r matches Ok((p, _)) ==> p.wf() && p.deep_view().value.wf(),
{
    let _ = did_you_mean_aggregate(src, pos)?;
    match count_distinct(src, pos) {
        Err(ParseError::Error { .. }) => {},
        other => {
            return other;
        },
    }
    match count(src, pos) {
        Err(ParseError::Error { .. }) => {},
        other => {
            return other;
        },
    }
    match average(src, pos) {
        Err(ParseError::Error { .. }) => {},
        other => {
            return other;
        },
    }
    match sum(src, pos) {
        Err(ParseError::Error { .. }) => {},
        other => {
            return other;
        },
    }
    p_nn(src, pos)
}

/// The name of the column that an aggregate function fills when the query
/// gives it none.
pub open spec fn spec_default_output(func: AggregateFunctionView) -> Seq<char> {
    match func {
        AggregateFunctionView::Count => "_count"@,
        AggregateFunctionView::Sum { .. } => "_sum"@,
        AggregateFunctionView::Average { .. } => "_average"@,
        AggregateFunctionView::CountDistinct { .. } => "_countDistinct"@,
        AggregateFunctionView::Percentile { percentile_str, .. } => "p"@ + percentile_str,
    }
}

/// The name of the column that `func` fills when the query gives it none.
pub fn default_output(func: &Positioned<AggregateFunction>) -> (name: String)
    ensures
        name@ == spec_default_output(func.deep_view().value),
{
    match func.into() {
        AggregateFunction::Count => "_count".to_owned(),
        AggregateFunction::Sum { .. } => "_sum".to_owned(),
        AggregateFunction::Average { .. } => "_average".to_owned(),
        AggregateFunction::CountDistinct { .. } => "_countDistinct".to_owned(),
        AggregateFunction::Percentile { percentile_str, .. } => {
            "p".to_owned().concat(percentile_str.as_str())
        },
    }
}

/// An aggregate function with the name of its output column: the one
/// behind `as`, or else the function's default.
pub open spec fn spec_complete_agg_function(s: Seq<char>, i: int) -> Parsed<
    (Seq<char>, Positioned<AggregateFunctionView>),
> {
    match spec_aggregate_function(s, sp(s, i)) {
        Ok((func, n)) => match optional(spec_word_ident(s, sp(s, n), "as"@), sp(s, n)) {
            Ok((rename, m)) => Ok(
                ((name_or(rename, spec_default_output(func.value)), func), sp(s, m)),
            ),
            Err(e) => Err(e),
        },
        Err(e) => Err(e),
    }
}

/// The rule [`spec_complete_agg_function`], applied at `pos`.
pub fn complete_agg_function(src: &Source, pos: usize) -> (r: Outcome<
    (String, Positioned<AggregateFunction>),
>)
    requires
        pos <= src@.len(),
    ensures
        agrees(r, spec_complete_agg_function(src@, pos as int)),
        within(r, pos, src@.len()),
        r matches Err(e) ==> e.wf(),
        r matches Ok((named, _)) ==> named.1.wf() && named.1.deep_view().value.wf(),
{
    let (func, n) = aggregate_function(src, skip(src, pos, CharClass::MultiSpace))?;
    let j = skip(src, n, CharClass::MultiSpace);
    let (name, m) = match word_ident(src, j, "as") {
        Ok((name, m)) => (name, m),
        Err(_) => (default_output(&func), j),
    };
    Ok(((name, func), skip(src, m, CharClass::MultiSpace)))
}

/// The rule for an aggregate function with its name, as a function of the
/// index.
pub open spec fn complete_agg_in(s: Seq<char>) -> spec_fn(int) -> Parsed<
    (Seq<char>, Positioned<AggregateFunctionView>),
> {
    |k: int| spec_complete_agg_function(s, k)
}

/// `by` and the keys to group by.
pub open spec fn spec_by_keys(s: Seq<char>, i: int) -> Parsed<Seq<(Seq<char>, ExprView)>> {
    match spec_tag(s, i, "by"@) {
        Ok((_, n)) => spec_sourced_expr_list(s, n),
        Err(e) => Err(e),
    }
}

/// The keys that were given, or else none.
pub open spec fn keys_or_none(given: Option<Seq<(Seq<char>, ExprView)>>) -> Seq<
    (Seq<char>, ExprView),
> {
    match given {
        Some(keys) => keys,
        None => Seq::empty(),
    }
}

/// The texts of the keys, in their order.
pub open spec fn headers_of(keys: Seq<(Seq<char>, ExprView)>) -> Seq<Seq<char>> {
    Seq::new(keys.len(), |k: int| keys[k].0)
}

/// The expressions of the keys, in their order.
pub open spec fn columns_of(keys: Seq<(Seq<char>, ExprView)>) -> Seq<ExprView> {
    Seq::new(keys.len(), |k: int| keys[k].1)
}

/// One or more aggregate functions with commas between them, and after
/// them, where `by` follows, the keys to group by.
pub open spec fn spec_multi_aggregate_operator(s: Seq<char>, i: int) -> Parsed<OperatorView> {
    match list1(s, sp(s, i), comma_in(s), complete_agg_in(s)) {
        Ok((aggregate_functions, n)) => match optional(spec_by_keys(s, sp(s, n)), sp(s, n)) {
            Ok((keys, m)) => Ok(
                (
                    OperatorView::MultiAggregate(
                        MultiAggregateOperatorView {
                            key_cols: columns_of(keys_or_none(keys)),
                            key_col_headers: headers_of(keys_or_none(keys)),
                            aggregate_functions,
                        },
                    ),
                    sp(s, m),
                ),
            ),
            Err(e) => Err(e),
        },
        Err(e) => Err(e),
    }
}

/// One or more aggregate functions with commas between them.
fn agg_functions(src: &Source, pos: usize) -> (r: Outcome<
    Vec<(String, Positioned<AggregateFunction>)>,
>)
    requires
        pos <= src@.len(),
    ensures
        agrees(r, list1(src@, pos as int, comma_in(src@), complete_agg_in(src@))),
        within(r, pos, src@.len()),
        r matches Err(e) ==> e.wf(),
        r matches Ok((list, _)) ==> forall|k: int|
            0 <= k < list@.len() ==> (#[trigger] list@[k]).1.wf() && list@[k].1.deep_view().value.wf(),
{
    let ghost sep = comma_in(src@);
    let ghost item = complete_agg_in(src@);
    let (first, after) = complete_agg_function(src, pos)?;
    if after <= pos {
        return Err(ParseError::Error { at: src.position(pos) });
    }
    let ghost goal = list_rest(src@, after as int, seq![first.deep_view()], sep, item);
    let mut at: usize = after;
    let mut list: Vec<(String, Positioned<AggregateFunction>)> = Vec::new();
    list.push(first);
    proof {
        lemma_single(list, first);
    }
    loop
        invariant
            pos < at <= src@.len(),
            sep == comma_in(src@),
            item == complete_agg_in(src@),
            list1(src@, pos as int, sep, item) == goal,
            list_rest(src@, at as int, list.deep_view(), sep, item) == goal,
            forall|k: int|
                0 <= k < list@.len() ==> (#[trigger] list@[k]).1.wf()
                    && list@[k].1.deep_view().value.wf(),
        ensures
            pos < at <= src@.len(),
            goal == Ok::<(Seq<(Seq<char>, Positioned<AggregateFunctionView>)>, int), ParseError>(
                (list.deep_view(), at as int),
            ),
            forall|k: int|
                0 <= k < list@.len() ==> (#[trigger] list@[k]).1.wf()
                    && list@[k].1.deep_view().value.wf(),
        decreases src@.len() - at,
    {
        if !at_char(src, at, ',') {
            proof {
                lemma_list_ends(src@, at as int, list.deep_view(), sep, item);
            }
            break ;
        }
        match complete_agg_function(src, at + 1) {
            Err(e) => {
                if e.fatal() {
                    proof {
                        lemma_list_fails(src@, at as int, list.deep_view(), sep, item, e);
                    }
                    return Err(e);
                }
                proof {
                    lemma_list_ends(src@, at as int, list.deep_view(), sep, item);
                }
                break ;
            },
            Ok((func, next)) => {
                if next <= at + 1 {
                    proof {
                        lemma_list_ends(src@, at as int, list.deep_view(), sep, item);
                    }
                    break ;
                }
                let ghost before = list;
                list.push(func);
                proof {
                    lemma_list_grows(
                        src@,
                        at as int,
                        before.deep_view(),
                        sep,
                        item,
                        func.deep_view(),
                        next as int,
                    );
                    lemma_pushed(before, list, func);
                }
                at = next;
            },
        }
    }
    Ok((list, at))
}

/// The rule [`spec_by_keys`], applied at `pos`.
fn by_keys(src: &Source, pos: usize) -> (r: Outcome<Vec<(String, Expr)>>)
    requires
        pos <= src@.len(),
    ensures
        agrees(r, spec_by_keys(src@, pos as int)),
        within(r, pos, src@.len()),
        r matches Err(e) ==> e.wf(),
{
    let (_, n) = tag(src, pos, "by")?;
    sourced_expr_list(src, n)
}

/// The texts and the expressions of the keys, each in a list of its own.
fn split_keys(keys: &Vec<(String, Expr)>) -> (r: (Vec<String>, Vec<Expr>))
    ensures
        r.0.deep_view() == headers_of(keys.deep_view()),
        r.1.deep_view() == columns_of(keys.deep_view()),
{
    let mut headers: Vec<String> = Vec::new();
    let mut columns: Vec<Expr> = Vec::new();
    let mut k: usize = 0;
    while k < keys.len()
        invariant
            k <= keys@.len(),
            headers@.len() == k,
            columns@.len() == k,
            forall|j: int| 0 <= j < k ==> (#[trigger] headers@[j])@ == keys@[j].0@,
            forall|j: int|
                0 <= j < k ==> (#[trigger] columns@[j]).deep_view() == keys@[j].1.deep_view(),
        decreases keys@.len() - k,
    {
        headers.push(keys[k].0.clone());
        columns.push(keys[k].1.clone());
        k = k + 1;
    }
    proof {
        assert(headers.deep_view() =~= headers_of(keys.deep_view()));
        assert(columns.deep_view() =~= columns_of(keys.deep_view()));
    }
    (headers, columns)
}

/// The rule [`spec_multi_aggregate_operator`], applied at `pos`.
pub fn multi_aggregate_operator(src: &Source, pos: usize) -> (r: Outcome<Operator>)
    requires
        pos <= src@.len(),
    ensures
        agrees(r, spec_multi_aggregate_operator(src@, pos as int)),
        within(r, pos, src@.len()),
        r matches Err(e) ==> e.wf(),
        r matches Ok((op, _)) ==> op.deep_view().wf(),
{
    let (aggregate_functions, n) = agg_functions(src, skip(src, pos, CharClass::MultiSpace))?;
    let j = skip(src, n, CharClass::MultiSpace);
    let (keys, m) = match by_keys(src, j) {
        Ok((keys, m)) => (keys, m),
        Err(ParseError::Error { .. }) => {
            let none: Vec<(String, Expr)> = Vec::new();
            proof {
                lemma_none(none);
            }
            (none, j)
        },
        Err(e) => {
            return Err(e);
        },
    };
    let (key_col_headers, key_cols) = split_keys(&keys);
    Ok(
        (
            Operator::MultiAggregate(
                MultiAggregateOperator { key_cols, key_col_headers, aggregate_functions },
            ),
            skip(src, m, CharClass::MultiSpace),
        ),
    )
}

} // verus!
