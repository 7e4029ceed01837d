//! The inline operators: `json`, `parse`, `fields`, `where`, `limit` and
//! `total`.
//!
//! Each of them carries its span. The span starts after the blanks
//! before the operator and ends after the blanks behind it.

use vstd::prelude::*;
use crate::ast::{
    Expr, ExprView, FieldMode, InlineOperator, InlineOperatorView, Operator, OperatorView,
};
use crate::chars::CharClass;
use crate::errors::ParseError;
use crate::expr::{expr, spec_expr, spec_var_list, var_list};
use crate::keyword::{Keyword, KeywordType, KeywordView};
use crate::lexical::{
    Outcome, Parsed, agrees, at_char, has_char, has_tag, miss, number_literal, optional, or_else,
    quoted_string, skip, sp, spec_number_literal, spec_quoted_string, spec_with_pos,
    spec_word_ident, spec_ws_tag, tag, with_pos, within, word_ident, ws_tag,
};
use crate::position::Positioned;
use crate::source::Source;

verus! {

/// `json [from IDENT]`, from `i`, which stands after the blanks.
pub open spec fn spec_json_body(s: Seq<char>, i: int) -> Parsed<InlineOperatorView> {
    match spec_ws_tag(s, i, "json"@) {
        Ok((_, n)) => match optional(spec_word_ident(s, sp(s, n), "from"@), sp(s, n)) {
            Ok((input_column, m)) => Ok((InlineOperatorView::Json { input_column }, sp(s, m))),
            Err(e) => Err(e),
        },
        Err(e) => Err(e),
    }
}

/// `json [from IDENT]`.
pub open spec fn spec_json(s: Seq<char>, i: int) -> Parsed<Positioned<InlineOperatorView>> {
    spec_with_pos(s, sp(s, i), spec_json_body(s, sp(s, i)))
}

/// The rule [`spec_json_body`], applied at `pos`.
fn json_body(src: &Source, pos: usize) -> (r: Outcome<InlineOperator>)
    requires
        pos <= src@.len(),
    ensures
        agrees(r, spec_json_body(src@, pos as int)),
        within(r, pos, src@.len()),
        r matches Err(e) ==> e.wf(),
        r is Err ==> !r->Err_0.is_fatal(),
{
    let (_, n) = ws_tag(src, pos, "json")?;
    let j = skip(src, n, CharClass::MultiSpace);
    let (input_column, m) = match word_ident(src, j, "from") {
        Ok((name, m)) => (Some(name), m),
        Err(_) => (None, j),
    };
    Ok((InlineOperator::Json { input_column }, skip(src, m, CharClass::MultiSpace)))
}

/// The rule [`spec_json`], applied at `pos`.
pub fn json(src: &Source, pos: usize) -> (r: Outcome<Positioned<InlineOperator>>)
    requires
        pos <= src@.len(),
    ensures
        agrees(r, spec_json(src@, pos as int)),
        within(r, pos, src@.len()),
        r matches Err(e) ==> e.wf(),
        r matches Ok((p, _)) ==> p.wf() && p.deep_view().value.wf(),
{
    let start = skip(src, pos, CharClass::MultiSpace);
    with_pos(src, start, json_body(src, start))
}

/// `where [EXPR]`, from `i`, which stands after the blanks.
pub open spec fn spec_whre_body(s: Seq<char>, i: int) -> Parsed<InlineOperatorView> {
    match spec_ws_tag(s, i, "where"@) {
        Ok((_, n)) => match optional(spec_with_pos(s, sp(s, n), spec_expr(s, sp(s, n))), sp(s, n)) {
            Ok((expr, m)) => Ok((InlineOperatorView::Where { expr }, sp(s, m))),
            Err(e) => Err(e),
        },
        Err(e) => Err(e),
    }
}

/// `where [EXPR]`.
pub open spec fn spec_whre(s: Seq<char>, i: int) -> Parsed<Positioned<InlineOperatorView>> {
    spec_with_pos(s, sp(s, i), spec_whre_body(s, sp(s, i)))
}

/// The rule [`spec_whre_body`], applied at `pos`.
fn whre_body(src: &Source, pos: usize) -> (r: Outcome<InlineOperator>)
    requires
        pos <= src@.len(),
    ensures
        agrees(r, spec_whre_body(src@, pos as int)),
        within(r, pos, src@.len()),
        r matches Err(e) ==> e.wf(),
        r matches Ok((op, _)) ==> op.deep_view().wf(),
{
    let (_, n) = ws_tag(src, pos, "where")?;
    let j = skip(src, n, CharClass::MultiSpace);
    let (ex, m) = match with_pos(src, j, expr(src, j)) {
        Ok((e, m)) => (Some(e), m),
        Err(ParseError::Error { .. }) => (None, j),
        Err(e) => {
            return Err(e);
        },
    };
    Ok((InlineOperator::Where { expr: ex }, skip(src, m, CharClass::MultiSpace)))
}

/// The rule [`spec_whre`], applied at `pos`.
pub fn whre(src: &Source, pos: usize) -> (r: Outcome<Positioned<InlineOperator>>)
    requires
        pos <= src@.len(),
    ensures
        agrees(r, spec_whre(src@, pos as int)),
        within(r, pos, src@.len()),
        r matches Err(e) ==> e.wf(),
        r matches Ok((p, _)) ==> p.wf() && p.deep_view().value.wf(),
{
    let start = skip(src, pos, CharClass::MultiSpace);
    with_pos(src, start, whre_body(src, start))
}

/// `limit [NUMBER]`, from `i`, which stands after the blanks.
pub open spec fn spec_limit_body(s: Seq<char>, i: int) -> Parsed<InlineOperatorView> {
    match spec_ws_tag(s, i, "limit"@) {
        Ok((_, n)) => match optional(
            spec_with_pos(s, sp(s, n), spec_number_literal(s, sp(s, n))),
            sp(s, n),
        ) {
            Ok((count, m)) => Ok((InlineOperatorView::Limit { count }, sp(s, m))),
            Err(e) => Err(e),
        },
        Err(e) => Err(e),
    }
}

/// `limit [NUMBER]`.
pub open spec fn spec_limit(s: Seq<char>, i: int) -> Parsed<Positioned<InlineOperatorView>> {
    spec_with_pos(s, sp(s, i), spec_limit_body(s, sp(s, i)))
}

/// The rule [`spec_limit_body`], applied at `pos`.
fn limit_body(src: &Source, pos: usize) -> (r: Outcome<InlineOperator>)
    requires
        pos <= src@.len(),
    ensures
        agrees(r, spec_limit_body(src@, pos as int)),
        within(r, pos, src@.len()),
        r matches Err(e) ==> e.wf(),
        r matches Ok((op, _)) ==> op.deep_view().wf(),
        r is Err ==> !r->Err_0.is_fatal(),
{
    let (_, n) = ws_tag(src, pos, "limit")?;
    let j = skip(src, n, CharClass::MultiSpace);
    let (count, m) = match with_pos(src, j, number_literal(src, j)) {
        Ok((c, m)) => (Some(c), m),
        Err(_) => (None, j),
    };
    Ok((InlineOperator::Limit { count }, skip(src, m, CharClass::MultiSpace)))
}

/// The rule [`spec_limit`], applied at `pos`.
pub fn limit(src: &Source, pos: usize) -> (r: Outcome<Positioned<InlineOperator>>)
    requires
        pos <= src@.len(),
    ensures
        agrees(r, spec_limit(src@, pos as int)),
        within(r, pos, src@.len()),
        r matches Err(e) ==> e.wf(),
        r matches Ok((p, _)) ==> p.wf() && p.deep_view().value.wf(),
{
    let start = skip(src, pos, CharClass::MultiSpace);
    with_pos(src, start, limit_body(src, start))
}

/// An expression between `(` and `)`, with blanks before each of the
/// three. A missing `)` is a mismatch here, not a failure.
pub open spec fn spec_parens(s: Seq<char>, i: int) -> Parsed<ExprView> {
    if has_char(s, sp(s, i), '(') {
        match spec_expr(s, sp(s, i) + 1) {
            Ok((e, n)) => if has_char(s, sp(s, n), ')') {
                Ok((e, sp(s, n) + 1))
            } else {
                miss(s, sp(s, n))
            },
            Err(e) => Err(e),
        }
    } else {
        miss(s, sp(s, i))
    }
}

/// The rule [`spec_parens`], applied at `pos`.
pub fn parens(src: &Source, pos: usize) -> (r: Outcome<Expr>)
    requires
        pos <= src@.len(),
    ensures
        agrees(r, spec_parens(src@, pos as int)),
        within(r, pos, src@.len()),
        r matches Err(e) ==> e.wf(),
{
    let j = skip(src, pos, CharClass::MultiSpace);
    if !at_char(src, j, '(') {
        return Err(ParseError::Error { at: src.position(j) });
    }
    let (e, n) = expr(src, j + 1)?;
    let k = skip(src, n, CharClass::MultiSpace);
    if at_char(src, k, ')') {
        Ok((e, k + 1))
    } else {
        Err(ParseError::Error { at: src.position(k) })
    }
}

/// The name of a column: the one given, or else `default`.
pub open spec fn name_or(given: Option<Seq<char>>, default: Seq<char>) -> Seq<char> {
    match given {
        Some(name) => name,
        None => default,
    }
}

/// `total (EXPR) [as IDENT]`, from `i`, which stands after the blanks.
pub open spec fn spec_total_body(s: Seq<char>, i: int) -> Parsed<InlineOperatorView> {
    match spec_ws_tag(s, i, "total"@) {
        Ok((_, n)) => match spec_parens(s, n) {
            Ok((input_column, a)) => match optional(
                spec_word_ident(s, sp(s, a), "as"@),
                sp(s, a),
            ) {
                Ok((rename, b)) => Ok(
                    (
                        InlineOperatorView::Total {
                            input_column,
                            output_column: name_or(rename, "_total"@),
                        },
                        sp(s, b),
                    ),
                ),
                Err(e) => Err(e),
            },
            Err(e) => Err(e),
        },
        Err(e) => Err(e),
    }
}

/// `total (EXPR) [as IDENT]`.
pub open spec fn spec_total(s: Seq<char>, i: int) -> Parsed<Positioned<InlineOperatorView>> {
    spec_with_pos(s, sp(s, i), spec_total_body(s, sp(s, i)))
}

/// The rule [`spec_total_body`], applied at `pos`.
fn total_body(src: &Source, pos: usize) -> (r: Outcome<InlineOperator>)
    requires
        pos <= src@.len(),
    ensures
        agrees(r, spec_total_body(src@, pos as int)),
        within(r, pos, src@.len()),
        r matches Err(e) ==> e.wf(),
{
    let (_, n) = ws_tag(src, pos, "total")?;
    let (input_column, a) = parens(src, n)?;
    let j = skip(src, a, CharClass::MultiSpace);
    let (output_column, b) = match word_ident(src, j, "as") {
        Ok((name, b)) => (name, b),
        Err(_) => ("_total".to_owned(), j),
    };
    Ok(
        (
            InlineOperator::Total { input_column, output_column },
            skip(src, b, CharClass::MultiSpace),
        ),
    )
}

/// The rule [`spec_total`], applied at `pos`.
pub fn total(src: &Source, pos: usize) -> (r: Outcome<Positioned<InlineOperator>>)
    requires
        pos <= src@.len(),
    ensures
        agrees(r, spec_total(src@, pos as int)),
        within(r, pos, src@.len()),
        r matches Err(e) ==> e.wf(),
        r matches Ok((p, _)) ==> p.wf() && p.deep_view().value.wf(),
{
    let start = skip(src, pos, CharClass::MultiSpace);
    with_pos(src, start, total_body(src, start))
}

/// `from EXPR`, with blanks before the word.
pub open spec fn spec_from_expr(s: Seq<char>, i: int) -> Parsed<ExprView> {
    match spec_ws_tag(s, i, "from"@) {
        Ok((_, n)) => spec_expr(s, n),
        Err(e) => Err(e),
    }
}

/// `parse STRING [from EXPR] as IDENT(, IDENT)* [nodrop]`, from `i`, which
/// stands after the blanks.
pub open spec fn spec_parse_body(s: Seq<char>, i: int) -> Parsed<InlineOperatorView> {
    match spec_ws_tag(s, i, "parse"@) {
        Ok((_, n)) => match spec_quoted_string(s, sp(s, n)) {
            Ok((pattern, a)) => match optional(spec_from_expr(s, sp(s, a)), sp(s, a)) {
                Ok((input_column, b)) => match spec_ws_tag(s, b, "as"@) {
                    Ok((_, c)) => match spec_var_list(s, c) {
                        Ok((fields, d)) => match optional(
                            spec_ws_tag(s, sp(s, d), "nodrop"@),
                            sp(s, d),
                        ) {
                            Ok((no_drop, e)) => Ok(
                                (
                                    InlineOperatorView::Parse {
                                        pattern: KeywordView {
                                            text: pattern,
                                            mode: KeywordType::WILDCARD,
                                        },
                                        fields,
                                        input_column,
                                        no_drop: no_drop is Some,
                                    },
                                    sp(s, e),
                                ),
                            ),
                            Err(e) => Err(e),
                        },
                        Err(e) => Err(e),
                    },
                    Err(e) => Err(e),
                },
                Err(e) => Err(e),
            },
            Err(e) => Err(e),
        },
        Err(e) => Err(e),
    }
}

/// `parse STRING [from EXPR] as IDENT(, IDENT)* [nodrop]`.
pub open spec fn spec_parse(s: Seq<char>, i: int) -> Parsed<Positioned<InlineOperatorView>> {
    spec_with_pos(s, sp(s, i), spec_parse_body(s, sp(s, i)))
}

/// The rule [`spec_from_expr`], applied at `pos`.
fn from_expr(src: &Source, pos: usize) -> (r: Outcome<Expr>)
    requires
        pos <= src@.len(),
    ensures
        agrees(r, spec_from_expr(src@, pos as int)),
        within(r, pos, src@.len()),
        r matches Err(e) ==> e.wf(),
{
    let (_, n) = ws_tag(src, pos, "from")?;
    expr(src, n)
}

/// The rule [`spec_parse_body`], applied at `pos`.
fn parse_body(src: &Source, pos: usize) -> (r: Outcome<InlineOperator>)
    requires
        pos <= src@.len(),
    ensures
        agrees(r, spec_parse_body(src@, pos as int)),
        within(r, pos, src@.len()),
        r matches Err(e) ==> e.wf(),
{
    let (_, n) = ws_tag(src, pos, "parse")?;
    let (pattern, a) = quoted_string(src, skip(src, n, CharClass::MultiSpace))?;
    let j = skip(src, a, CharClass::MultiSpace);
    let (input_column, b) = match from_expr(src, j) {
        Ok((e, b)) => (Some(e), b),
        Err(ParseError::Error { .. }) => (None, j),
        Err(e) => {
            return Err(e);
        },
    };
    let (_, c) = ws_tag(src, b, "as")?;
    let (fields, d) = var_list(src, c)?;
    let k = skip(src, d, CharClass::MultiSpace);
    let (no_drop, e) = match ws_tag(src, k, "nodrop") {
        Ok((_, e)) => (true, e),
        Err(_) => (false, k),
    };
    Ok(
        (
            InlineOperator::Parse {
                pattern: Keyword::new_wildcard(pattern),
                fields,
                input_column,
                no_drop,
            },
            skip(src, e, CharClass::MultiSpace),
        ),
    )
}

/// The rule [`spec_parse`], applied at `pos`.
pub fn parse(src: &Source, pos: usize) -> (r: Outcome<Positioned<InlineOperator>>)
    requires
        pos <= src@.len(),
    ensures
        agrees(r, spec_parse(src@, pos as int)),
        within(r, pos, src@.len()),
        r matches Err(e) ==> e.wf(),
        r matches Ok((p, _)) ==> p.wf() && p.deep_view().value.wf(),
{
    let start = skip(src, pos, CharClass::MultiSpace);
    with_pos(src, start, parse_body(src, start))
}

/// The polarity of a `fields` operator: `+`, `only` or `include` keep the
/// fields, `-`, `except` or `drop` remove them.
pub open spec fn spec_fields_mode(s: Seq<char>, i: int) -> Parsed<FieldMode> {
    if has_tag(s, i, "+"@) {
        Ok((FieldMode::Only, i + "+"@.len()))
    } else if has_tag(s, i, "only"@) {
        Ok((FieldMode::Only, i + "only"@.len()))
    } else if has_tag(s, i, "include"@) {
        Ok((FieldMode::Only, i + "include"@.len()))
    } else if has_tag(s, i, "-"@) {
        Ok((FieldMode::Except, i + "-"@.len()))
    } else if has_tag(s, i, "except"@) {
        Ok((FieldMode::Except, i + "except"@.len()))
    } else if has_tag(s, i, "drop"@) {
        Ok((FieldMode::Except, i + "drop"@.len()))
    } else {
        miss(s, i)
    }
}

/// The rule [`spec_fields_mode`], applied at `pos`.
pub fn fields_mode(src: &Source, pos: usize) -> (r: Outcome<FieldMode>)
    requires
        pos <= src@.len(),
    ensures
        agrees(r, spec_fields_mode(src@, pos as int)),
        within(r, pos, src@.len()),
        r matches Err(e) ==> e.wf(),
        r is Err ==> !r->Err_0.is_fatal(),
{
    if let Ok((_, n)) = tag(src, pos, "+") {
        Ok((FieldMode::Only, n))
    } else if let Ok((_, n)) = tag(src, pos, "only") {
        Ok((FieldMode::Only, n))
    } else if let Ok((_, n)) = tag(src, pos, "include") {
        Ok((FieldMode::Only, n))
    } else if let Ok((_, n)) = tag(src, pos, "-") {
        Ok((FieldMode::Except, n))
    } else if let Ok((_, n)) = tag(src, pos, "except") {
        Ok((FieldMode::Except, n))
    } else if let Ok((_, n)) = tag(src, pos, "drop") {
        Ok((FieldMode::Except, n))
    } else {
        Err(ParseError::Error { at: src.position(pos) })
    }
}

/// The polarity that was given, or else `Only`.
pub open spec fn mode_or_only(given: Option<FieldMode>) -> FieldMode {
    match given {
        Some(mode) => mode,
        None => FieldMode::Only,
    }
}

/// `fields [MODE] IDENT(, IDENT)*`, from `i`, which stands after the blanks.
pub open spec fn spec_fields_body(s: Seq<char>, i: int) -> Parsed<InlineOperatorView> {
    match spec_ws_tag(s, i, "fields"@) {
        Ok((_, n)) => match optional(spec_fields_mode(s, sp(s, n)), sp(s, n)) {
            Ok((mode, a)) => match spec_var_list(s, a) {
                Ok((fields, b)) => Ok(
                    (InlineOperatorView::Fields { mode: mode_or_only(mode), fields }, sp(s, b)),
                ),
                Err(e) => Err(e),
            },
            Err(e) => Err(e),
        },
        Err(e) => Err(e),
    }
}

/// `fields [MODE] IDENT(, IDENT)*`.
pub open spec fn spec_fields(s: Seq<char>, i: int) -> Parsed<Positioned<InlineOperatorView>> {
    spec_with_pos(s, sp(s, i), spec_fields_body(s, sp(s, i)))
}

/// The rule [`spec_fields_body`], applied at `pos`.
fn fields_body(src: &Source, pos: usize) -> (r: Outcome<InlineOperator>)
    requires
        pos <= src@.len(),
    ensures
        agrees(r, spec_fields_body(src@, pos as int)),
        within(r, pos, src@.len()),
        r matches Err(e) ==> e.wf(),
{
    let (_, n) = ws_tag(src, pos, "fields")?;
    let j = skip(src, n, CharClass::MultiSpace);
    let (mode, a) = match fields_mode(src, j) {
        Ok((mode, a)) => (mode, a),
        Err(_) => (FieldMode::Only, j),
    };
    let (fields, b) = var_list(src, a)?;
    Ok((InlineOperator::Fields { mode, fields }, skip(src, b, CharClass::MultiSpace)))
}

/// The rule [`spec_fields`], applied at `pos`.
pub fn fields(src: &Source, pos: usize) -> (r: Outcome<Positioned<InlineOperator>>)
    requires
        pos <= src@.len(),
    ensures
        agrees(r, spec_fields(src@, pos as int)),
        within(r, pos, src@.len()),
        r matches Err(e) ==> e.wf(),
        r matches Ok((p, _)) ==> p.wf() && p.deep_view().value.wf(),
{
    let start = skip(src, pos, CharClass::MultiSpace);
    with_pos(src, start, fields_body(src, start))
}

/// The inline operator that a positioned rule gave, as an operator.
pub open spec fn as_inline(r: Parsed<Positioned<InlineOperatorView>>) -> Parsed<OperatorView> {
    match r {
        Ok((op, n)) => Ok((OperatorView::Inline(op), n)),
        Err(e) => Err(e),
    }
}

/// An inline operator: the first of `parse`, `json`, `fields`, `where`,
/// `limit` and `total` that matches.
pub open spec fn spec_inline_operator(s: Seq<char>, i: int) -> Parsed<OperatorView> {
    as_inline(
        or_else(
            spec_parse(s, i),
            or_else(
                spec_json(s, i),
                or_else(
                    spec_fields(s, i),
                    or_else(spec_whre(s, i), or_else(spec_limit(s, i), spec_total(s, i))),
                ),
            ),
        ),
    )
}

/// The first of the inline operators that matches at `pos`.
fn first_inline(src: &Source, pos: usize) -> (r: Outcome<Positioned<InlineOperator>>)
    requires
        pos <= src@.len(),
    ensures
        agrees(
            r,
            or_else(
                spec_parse(src@, pos as int),
                or_else(
                    spec_json(src@, pos as int),
                    or_else(
                        spec_fields(src@, pos as int),
                        or_else(
                            spec_whre(src@, pos as int),
                            or_else(spec_limit(src@, pos as int), spec_total(src@, pos as int)),
                        ),
                    ),
                ),
            ),
        ),
        within(r, pos, src@.len()),
        r matches Err(e) ==> e.wf(),
        r matches Ok((p, _)) ==> p.wf() && p.deep_view().value.wf(),
{
    match parse(src, pos) {
        Err(ParseError::Error { .. }) => {},
        other => {
            return other;
        },
    }
    match json(src, pos) {
        Err(ParseError::Error { .. }) => {},
        other => {
            return other;
        },
    }
    match fields(src, pos) {
        Err(ParseError::Error { .. }) => {},
        other => {
            return other;
        },
    }
    match whre(src, pos) {
        Err(ParseError::Error { .. }) => {},
        other => {
            return other;
        },
    }
    match limit(src, pos) {
        Err(ParseError::Error { .. }) => {},
        other => {
            return other;
        },
    }
    total(src, pos)
}

/// The rule [`spec_inline_operator`], applied at `pos`.
pub fn inline_operator(src: &Source, pos: usize) -> (r: Outcome<Operator>)
    requires
        pos <= src@.len(),
    ensures
        agrees(r, spec_inline_operator(src@, pos as int)),
        within(r, pos, src@.len()),
        r matches Err(e) ==> e.wf(),
        r matches Ok((op, _)) ==> op.deep_view().wf(),
{
    let (op, n) = first_inline(src, pos)?;
    Ok((Operator::Inline(op), n))
}

} // verus!
