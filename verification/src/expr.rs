//! The expression grammar: columns, literals, one comparison or one `!`,
//! and parentheses.

use vstd::prelude::*;
use crate::ast::{
    BinaryOp, ComparisonOp, Expr, ExprView, UnaryOp, Value, ValueView, literal_of,
};
use crate::chars::CharClass;
use crate::errors::{ParseError, SyntaxErrors};
use crate::lexical::{
    Outcome, Parsed, agrees, at_char, has_char, has_tag, ident, lemma_ident_advances,
    lemma_quoted_string_advances, lemma_run_end, miss, or_else,
    quoted_string, run_end, skip, sp, spec_ident, spec_quoted_string, spec_trim, tag, trimmed,
    within,
};
use crate::lists::{
    lemma_list_ends, lemma_list_fails, lemma_list_grows, lemma_pushed, lemma_single, list1,
    list_rest,
};
use crate::position::{lemma_byte_offset_monotonic, mark};
use crate::source::Source;

verus! {

/// A literal: a quoted string or a run of digits, with the blanks around it.
pub open spec fn spec_value(s: Seq<char>, i: int) -> Parsed<ValueView> {
    match spec_quoted_string(s, sp(s, i)) {
        Ok((text, n)) => Ok((ValueView::Str(text), sp(s, n))),
        Err(ParseError::Error { .. }) => if run_end(s, sp(s, i), CharClass::Digit) > sp(s, i) {
            Ok(
                (
                    literal_of(s.subrange(sp(s, i), run_end(s, sp(s, i), CharClass::Digit))),
                    sp(s, run_end(s, sp(s, i), CharClass::Digit)),
                ),
            )
        } else {
            miss(s, sp(s, i))
        },
        Err(e) => Err(e),
    }
}

/// The rule [`spec_value`], applied at `pos`.
pub fn value(src: &Source, pos: usize) -> (r: Outcome<Value>)
    requires
        pos <= src@.len(),
    ensures
        agrees(r, spec_value(src@, pos as int)),
        within(r, pos, src@.len()),
        r matches Err(e) ==> e.wf(),
        r matches Ok((_, n)) ==> pos < n,
{
    let j = skip(src, pos, CharClass::MultiSpace);
    match quoted_string(src, j) {
        Ok((text, n)) => Ok((Value::Str(text), skip(src, n, CharClass::MultiSpace))),
        Err(ParseError::Error { .. }) => {
            let e = skip(src, j, CharClass::Digit);
            if e > j {
                Ok((Value::from_string(src.slice(j, e)), skip(src, e, CharClass::MultiSpace)))
            } else {
                Err(ParseError::Error { at: src.position(j) })
            }
        },
        Err(e) => Err(e),
    }
}

/// A comparison operator, with the blanks around it.
pub open spec fn spec_comp_op(s: Seq<char>, i: int) -> Parsed<ComparisonOp> {
    let j = sp(s, i);
    if has_tag(s, j, "=="@) {
        Ok((ComparisonOp::Eq, sp(s, j + "=="@.len())))
    } else if has_tag(s, j, "<="@) {
        Ok((ComparisonOp::Lte, sp(s, j + "<="@.len())))
    } else if has_tag(s, j, ">="@) {
        Ok((ComparisonOp::Gte, sp(s, j + ">="@.len())))
    } else if has_tag(s, j, "!="@) {
        Ok((ComparisonOp::Neq, sp(s, j + "!="@.len())))
    } else if has_tag(s, j, ">"@) {
        Ok((ComparisonOp::Gt, sp(s, j + ">"@.len())))
    } else if has_tag(s, j, "<"@) {
        Ok((ComparisonOp::Lt, sp(s, j + "<"@.len())))
    } else {
        miss(s, j)
    }
}

/// The rule [`spec_comp_op`], applied at `pos`.
pub fn comp_op(src: &Source, pos: usize) -> (r: Outcome<ComparisonOp>)
    requires
        pos <= src@.len(),
    ensures
        agrees(r, spec_comp_op(src@, pos as int)),
        within(r, pos, src@.len()),
        r matches Err(e) ==> e.wf(),
{
    let j = skip(src, pos, CharClass::MultiSpace);
    if let Ok((_, n)) = tag(src, j, "==") {
        Ok((ComparisonOp::Eq, skip(src, n, CharClass::MultiSpace)))
    } else if let Ok((_, n)) = tag(src, j, "<=") {
        Ok((ComparisonOp::Lte, skip(src, n, CharClass::MultiSpace)))
    } else if let Ok((_, n)) = tag(src, j, ">=") {
        Ok((ComparisonOp::Gte, skip(src, n, CharClass::MultiSpace)))
    } else if let Ok((_, n)) = tag(src, j, "!=") {
        Ok((ComparisonOp::Neq, skip(src, n, CharClass::MultiSpace)))
    } else if let Ok((_, n)) = tag(src, j, ">") {
        Ok((ComparisonOp::Gt, skip(src, n, CharClass::MultiSpace)))
    } else if let Ok((_, n)) = tag(src, j, "<") {
        Ok((ComparisonOp::Lt, skip(src, n, CharClass::MultiSpace)))
    } else {
        Err(ParseError::Error { at: src.position(j) })
    }
}

/// The unary operator `!`, with the blanks around it.
pub open spec fn spec_unary_op(s: Seq<char>, i: int) -> Parsed<UnaryOp> {
    if has_char(s, sp(s, i), '!') {
        Ok((UnaryOp::Not, sp(s, sp(s, i) + 1)))
    } else {
        miss(s, sp(s, i))
    }
}

/// The rule [`spec_unary_op`], applied at `pos`.
pub fn unary_op(src: &Source, pos: usize) -> (r: Outcome<UnaryOp>)
    requires
        pos <= src@.len(),
    ensures
        agrees(r, spec_unary_op(src@, pos as int)),
        within(r, pos, src@.len()),
        r matches Err(e) ==> e.wf(),
        r matches Ok((_, n)) ==> pos < n,
{
    let j = skip(src, pos, CharClass::MultiSpace);
    if at_char(src, j, '!') {
        Ok((UnaryOp::Not, skip(src, j + 1, CharClass::MultiSpace)))
    } else {
        Err(ParseError::Error { at: src.position(j) })
    }
}

/// Skipping blanks never moves back.
pub proof fn lemma_sp(s: Seq<char>, i: int)
    ensures
        i <= sp(s, i),
        0 <= i <= s.len() ==> sp(s, i) <= s.len(),
{
    if 0 <= i <= s.len() {
        lemma_run_end(s, i, CharClass::MultiSpace);
    }
}

/// An operand: a column, a literal, or an expression in parentheses, with
/// the blanks around it. An opening parenthesis whose expression is not
/// followed by `)` is a failure from the one to where the other is missing.
pub open spec fn spec_e_ident(s: Seq<char>, i: int) -> Parsed<ExprView>
    decreases s.len() - i, 0nat,
{
    let j = sp(s, i);
    match spec_ident(s, j) {
        Ok((name, n)) => Ok((ExprView::Column(name), sp(s, n))),
        Err(_) => match spec_value(s, j) {
            Ok((v, n)) => Ok((ExprView::Value(v), n)),
            Err(ParseError::Error { .. }) => if has_char(s, j, '(') {
                proof {
                    lemma_sp(s, i);
                }
                match spec_expr(s, j + 1) {
                    Ok((e, n)) => if has_char(s, n, ')') {
                        Ok((e, sp(s, n + 1)))
                    } else {
                        Err(
                            ParseError::Failure {
                                kind: SyntaxErrors::MissingParen,
                                start: mark(s, j),
                                end: mark(s, n),
                            },
                        )
                    },
                    Err(e) => Err(e),
                }
            } else {
                miss(s, j)
            },
            Err(e) => Err(e),
        },
    }
}

/// Two operands with a comparison operator between them. `i` stands after
/// the blanks. The test of the index behind the operator is there to show
/// that the rule comes to an end: by [`lemma_binary_advances`] an operator
/// never ends before `i` or behind the text.
pub open spec fn spec_binary(s: Seq<char>, i: int) -> Parsed<ExprView>
    decreases s.len() - i, 1nat,
{
    match spec_e_ident(s, i) {
        Ok((left, n1)) => match spec_comp_op(s, n1) {
            Ok((op, n2)) => if n2 < i || n2 > s.len() {
                miss(s, i)
            } else {
                match spec_e_ident(s, n2) {
                    Ok((right, n3)) => Ok(
                        (
                            ExprView::Binary {
                                op: BinaryOp::Comparison(op),
                                left: Box::new(left),
                                right: Box::new(right),
                            },
                            n3,
                        ),
                    ),
                    Err(e) => Err(e),
                }
            },
            Err(e) => Err(e),
        },
        Err(e) => Err(e),
    }
}

/// A `!` and its operand. The test of the index behind the `!` is there to
/// show that the rule comes to an end: by [`lemma_unary_advances`] a `!`
/// never ends before `i` or behind the text.
pub open spec fn spec_unary(s: Seq<char>, i: int) -> Parsed<ExprView>
    decreases s.len() - i, 1nat,
{
    match spec_unary_op(s, i) {
        Ok((op, n1)) => if n1 < i || n1 > s.len() {
            miss(s, i)
        } else {
            match spec_e_ident(s, n1) {
                Ok((operand, n2)) => Ok((ExprView::Unary { op, operand: Box::new(operand) }, n2)),
                Err(e) => Err(e),
            }
        },
        Err(e) => Err(e),
    }
}

/// An expression: a comparison, else a negation, else an operand alone.
pub open spec fn spec_expr(s: Seq<char>, i: int) -> Parsed<ExprView>
    decreases s.len() - i, 2nat,
{
    proof {
        lemma_sp(s, i);
    }
    or_else(
        spec_binary(s, sp(s, i)),
        or_else(spec_unary(s, sp(s, i)), spec_e_ident(s, sp(s, i))),
    )
}

/// A literal takes one character at least, and stays in the text.
pub proof fn lemma_value_advances(s: Seq<char>, i: int)
    requires
        0 <= i <= s.len(),
    ensures
        spec_value(s, i) matches Ok((_, n)) ==> i < n <= s.len(),
{
    lemma_sp(s, i);
    lemma_quoted_string_advances(s, sp(s, i));
    lemma_run_end(s, sp(s, i), CharClass::Digit);
    match spec_quoted_string(s, sp(s, i)) {
        Ok((_, n)) => {
            lemma_sp(s, n);
        },
        _ => {
            lemma_sp(s, run_end(s, sp(s, i), CharClass::Digit));
        },
    }
}

/// A comparison operator does not move back, and stays in the text.
pub proof fn lemma_comp_op_advances(s: Seq<char>, i: int)
    requires
        0 <= i <= s.len(),
    ensures
        spec_comp_op(s, i) matches Ok((_, n)) ==> i <= n <= s.len(),
{
    let j = sp(s, i);
    lemma_sp(s, i);
    lemma_sp(s, j + "=="@.len());
    lemma_sp(s, j + "<="@.len());
    lemma_sp(s, j + ">="@.len());
    lemma_sp(s, j + "!="@.len());
    lemma_sp(s, j + ">"@.len());
    lemma_sp(s, j + "<"@.len());
}

/// An operand takes one character at least, and stays in the text.
pub proof fn lemma_e_ident_advances(s: Seq<char>, i: int)
    requires
        0 <= i <= s.len(),
    ensures
        spec_e_ident(s, i) matches Ok((_, n)) ==> i < n <= s.len(),
    decreases s.len() - i, 0nat,
{
    let j = sp(s, i);
    lemma_sp(s, i);
    lemma_ident_advances(s, j);
    lemma_value_advances(s, j);
    match spec_ident(s, j) {
        Ok((_, n)) => {
            lemma_sp(s, n);
        },
        Err(_) => {
            if spec_value(s, j) is Err && has_char(s, j, '(') {
                lemma_expr_advances(s, j + 1);
                if let Ok((_, n)) = spec_expr(s, j + 1) {
                    if has_char(s, n, ')') {
                        lemma_sp(s, n + 1);
                    }
                }
            }
        },
    }
}

/// A comparison takes one character at least, and stays in the text. The
/// operator and the right operand stand where the rule before them ended.
pub proof fn lemma_binary_advances(s: Seq<char>, i: int)
    requires
        0 <= i <= s.len(),
    ensures
        spec_binary(s, i) matches Ok((_, n)) ==> i < n <= s.len(),
        spec_e_ident(s, i) matches Ok((_, n1)) ==> (spec_comp_op(s, n1) matches Ok((_, n2))
            ==> i < n1 <= n2 <= s.len()),
    decreases s.len() - i, 1nat,
{
    lemma_e_ident_advances(s, i);
    if let Ok((_, n1)) = spec_e_ident(s, i) {
        lemma_comp_op_advances(s, n1);
        if let Ok((_, n2)) = spec_comp_op(s, n1) {
            lemma_e_ident_advances(s, n2);
        }
    }
}

/// A negation takes one character at least, and stays in the text.
pub proof fn lemma_unary_advances(s: Seq<char>, i: int)
    requires
        0 <= i <= s.len(),
    ensures
        spec_unary(s, i) matches Ok((_, n)) ==> i < n <= s.len(),
        spec_unary_op(s, i) matches Ok((_, n1)) ==> i < n1 <= s.len(),
    decreases s.len() - i, 1nat,
{
    lemma_sp(s, i);
    if has_char(s, sp(s, i), '!') {
        lemma_sp(s, sp(s, i) + 1);
        lemma_e_ident_advances(s, sp(s, sp(s, i) + 1));
    }
}

/// An expression takes one character at least, and stays in the text.
pub proof fn lemma_expr_advances(s: Seq<char>, i: int)
    requires
        0 <= i <= s.len(),
    ensures
        spec_expr(s, i) matches Ok((_, n)) ==> i < n <= s.len(),
    decreases s.len() - i, 2nat,
{
    lemma_sp(s, i);
    lemma_binary_advances(s, sp(s, i));
    lemma_unary_advances(s, sp(s, i));
    lemma_e_ident_advances(s, sp(s, i));
}

/// The rule [`spec_e_ident`], applied at `pos`.
pub fn e_ident(src: &Source, pos: usize) -> (r: Outcome<Expr>)
    requires
        pos <= src@.len(),
    ensures
        agrees(r, spec_e_ident(src@, pos as int)),
        within(r, pos, src@.len()),
        r matches Err(e) ==> e.wf(),
        r matches Ok((_, n)) ==> pos < n,
    decreases src@.len() - pos, 0nat,
{
    let j = skip(src, pos, CharClass::MultiSpace);
    match ident(src, j) {
        Ok((name, n)) => Ok((Expr::Column(name), skip(src, n, CharClass::MultiSpace))),
        Err(_) => match value(src, j) {
            Ok((v, n)) => Ok((Expr::Value(v), n)),
            Err(ParseError::Error { .. }) => {
                if at_char(src, j, '(') {
                    match expr(src, j + 1) {
                        Ok((e, n)) => {
                            if at_char(src, n, ')') {
                                Ok((e, skip(src, n + 1, CharClass::MultiSpace)))
                            } else {
                                proof {
                                    lemma_byte_offset_monotonic(src@, j as int, n as int);
                                }
                                Err(
                                    ParseError::Failure {
                                        kind: SyntaxErrors::MissingParen,
                                        start: src.position(j),
                                        end: src.position(n),
                                    },
                                )
                            }
                        },
                        Err(e) => Err(e),
                    }
                } else {
                    Err(ParseError::Error { at: src.position(j) })
                }
            },
            Err(e) => Err(e),
        },
    }
}

/// The rule [`spec_binary`], applied at `pos`.
fn binary(src: &Source, pos: usize) -> (r: Outcome<Expr>)
    requires
        pos <= src@.len(),
    ensures
        agrees(r, spec_binary(src@, pos as int)),
        within(r, pos, src@.len()),
        r matches Err(e) ==> e.wf(),
        r matches Ok((_, n)) ==> pos < n,
    decreases src@.len() - pos, 1nat,
{
    let (left, n1) = e_ident(src, pos)?;
    let (op, n2) = comp_op(src, n1)?;
    let (right, n3) = e_ident(src, n2)?;
    Ok(
        (
            Expr::Binary {
                op: BinaryOp::Comparison(op),
                left: Box::new(left),
                right: Box::new(right),
            },
            n3,
        ),
    )
}

/// The rule [`spec_unary`], applied at `pos`.
fn unary(src: &Source, pos: usize) -> (r: Outcome<Expr>)
    requires
        pos <= src@.len(),
    ensures
        agrees(r, spec_unary(src@, pos as int)),
        within(r, pos, src@.len()),
        r matches Err(e) ==> e.wf(),
        r matches Ok((_, n)) ==> pos < n,
    decreases src@.len() - pos, 1nat,
{
    let (op, n1) = unary_op(src, pos)?;
    let (operand, n2) = e_ident(src, n1)?;
    Ok((Expr::Unary { op, operand: Box::new(operand) }, n2))
}

/// The rule [`spec_expr`], applied at `pos`.
pub fn expr(src: &Source, pos: usize) -> (r: Outcome<Expr>)
    requires
        pos <= src@.len(),
    ensures
        agrees(r, spec_expr(src@, pos as int)),
        within(r, pos, src@.len()),
        r matches Err(e) ==> e.wf(),
        r matches Ok((_, n)) ==> pos < n,
    decreases src@.len() - pos, 2nat,
{
    let j = skip(src, pos, CharClass::MultiSpace);
    match binary(src, j) {
        Err(ParseError::Error { .. }) => match unary(src, j) {
            Err(ParseError::Error { .. }) => e_ident(src, j),
            other => other,
        },
        other => other,
    }
}

/// A comma.
pub open spec fn spec_comma(s: Seq<char>, i: int) -> Parsed<()> {
    if has_char(s, i, ',') {
        Ok(((), i + 1))
    } else {
        miss(s, i)
    }
}

/// An identifier with the blanks around it.
pub open spec fn spec_ws_ident(s: Seq<char>, i: int) -> Parsed<Seq<char>> {
    match spec_ident(s, sp(s, i)) {
        Ok((name, n)) => Ok((name, sp(s, n))),
        Err(e) => Err(e),
    }
}

/// The rule [`spec_ws_ident`], applied at `pos`.
pub fn ws_ident(src: &Source, pos: usize) -> (r: Outcome<String>)
    requires
        pos <= src@.len(),
    ensures
        agrees(r, spec_ws_ident(src@, pos as int)),
        within(r, pos, src@.len()),
        r matches Err(e) ==> e.wf(),
        r matches Ok((_, n)) ==> pos < n,
{
    let j = skip(src, pos, CharClass::MultiSpace);
    let (name, n) = ident(src, j)?;
    Ok((name, skip(src, n, CharClass::MultiSpace)))
}

/// The rule for a comma, as a function of the index.
pub open spec fn comma_in(s: Seq<char>) -> spec_fn(int) -> Parsed<()> {
    |k: int| spec_comma(s, k)
}

/// The rule for an identifier with the blanks around it, as a function of
/// the index.
pub open spec fn ws_ident_in(s: Seq<char>) -> spec_fn(int) -> Parsed<Seq<char>> {
    |k: int| spec_ws_ident(s, k)
}

/// One or more identifiers with commas between them.
pub open spec fn spec_var_list(s: Seq<char>, i: int) -> Parsed<Seq<Seq<char>>> {
    list1(s, sp(s, i), comma_in(s), ws_ident_in(s))
}

/// The rule [`spec_var_list`], applied at `pos`.
pub fn var_list(src: &Source, pos: usize) -> (r: Outcome<Vec<String>>)
    requires
        pos <= src@.len(),
    ensures
        agrees(r, spec_var_list(src@, pos as int)),
        within(r, pos, src@.len()),
        r matches Err(e) ==> e.wf(),
        r matches Ok((_, n)) ==> pos < n,
{
    let start = skip(src, pos, CharClass::MultiSpace);
    let (first, after) = ws_ident(src, start)?;
    let ghost sep = comma_in(src@);
    let ghost item = ws_ident_in(src@);
    let ghost goal = list_rest(src@, after as int, seq![first.deep_view()], sep, item);
    let mut at: usize = after;
    let mut names: Vec<String> = Vec::new();
    names.push(first);
    proof {
        lemma_single(names, first);
    }
    loop
        invariant
            start < at <= src@.len(),
            sep == comma_in(src@),
            item == ws_ident_in(src@),
            list_rest(src@, at as int, names.deep_view(), sep, item) == goal,
        ensures
            start < at <= src@.len(),
            goal == Ok::<(Seq<Seq<char>>, int), ParseError>((names.deep_view(), at as int)),
        decreases src@.len() - at,
    {
        if !at_char(src, at, ',') {
            proof {
                lemma_list_ends(src@, at as int, names.deep_view(), sep, item);
            }
            break ;
        }
        match ws_ident(src, at + 1) {
            Err(e) => {
                proof {
                    lemma_list_ends(src@, at as int, names.deep_view(), sep, item);
                }
                break ;
            },
            Ok((name, next)) => {
                let ghost before = names;
                names.push(name);
                proof {
                    lemma_list_grows(
                        src@,
                        at as int,
                        before.deep_view(),
                        sep,
                        item,
                        name.deep_view(),
                        next as int,
                    );
                    lemma_pushed(before, names, name);
                }
                at = next;
            },
        }
    }
    Ok((names, at))
}

/// An expression with the text it was written as: the characters that the
/// expression took, without the white space at their start and end.
pub open spec fn spec_sourced_expr(s: Seq<char>, i: int) -> Parsed<(Seq<char>, ExprView)> {
    match spec_expr(s, sp(s, i)) {
        Ok((e, n)) => Ok(((spec_trim(s.subrange(sp(s, i), n), CharClass::Whitespace), e), n)),
        Err(e) => Err(e),
    }
}

/// The rule [`spec_sourced_expr`], applied at `pos`.
pub fn sourced_expr(src: &Source, pos: usize) -> (r: Outcome<(String, Expr)>)
    requires
        pos <= src@.len(),
    ensures
        agrees(r, spec_sourced_expr(src@, pos as int)),
        within(r, pos, src@.len()),
        r matches Err(e) ==> e.wf(),
        r matches Ok((_, n)) ==> pos < n,
{
    let j = skip(src, pos, CharClass::MultiSpace);
    let (e, n) = expr(src, j)?;
    Ok(((trimmed(src, j, n, CharClass::Whitespace), e), n))
}

/// The rule for an expression with its text, as a function of the index.
pub open spec fn sourced_expr_in(s: Seq<char>) -> spec_fn(int) -> Parsed<(Seq<char>, ExprView)> {
    |k: int| spec_sourced_expr(s, k)
}

/// One or more expressions, each with its text, with commas between them.
pub open spec fn spec_sourced_expr_list(s: Seq<char>, i: int) -> Parsed<
    Seq<(Seq<char>, ExprView)>,
> {
    list1(s, sp(s, i), comma_in(s), sourced_expr_in(s))
}

/// The rule [`spec_sourced_expr_list`], applied at `pos`.
pub fn sourced_expr_list(src: &Source, pos: usize) -> (r: Outcome<Vec<(String, Expr)>>)
    requires
        pos <= src@.len(),
    ensures
        agrees(r, spec_sourced_expr_list(src@, pos as int)),
        within(r, pos, src@.len()),
        r matches Err(e) ==> e.wf(),
        r matches Ok((_, n)) ==> pos < n,
{
    let start = skip(src, pos, CharClass::MultiSpace);
    let (first, after) = sourced_expr(src, start)?;
    let ghost sep = comma_in(src@);
    let ghost item = sourced_expr_in(src@);
    let ghost goal = list_rest(src@, after as int, seq![first.deep_view()], sep, item);
    let mut at: usize = after;
    let mut keys: Vec<(String, Expr)> = Vec::new();
    keys.push(first);
    proof {
        lemma_single(keys, first);
    }
    loop
        invariant
            start < at <= src@.len(),
            sep == comma_in(src@),
            item == sourced_expr_in(src@),
            spec_sourced_expr_list(src@, pos as int) == goal,
            list_rest(src@, at as int, keys.deep_view(), sep, item) == goal,
        ensures
            start < at <= src@.len(),
            goal == Ok::<(Seq<(Seq<char>, ExprView)>, int), ParseError>(
                (keys.deep_view(), at as int),
            ),
        decreases src@.len() - at,
    {
        if !at_char(src, at, ',') {
            proof {
                lemma_list_ends(src@, at as int, keys.deep_view(), sep, item);
            }
            break ;
        }
        match sourced_expr(src, at + 1) {
            Err(e) => {
                if e.fatal() {
                    proof {
                        lemma_list_fails(src@, at as int, keys.deep_view(), sep, item, e);
                    }
                    return Err(e);
                }
                proof {
                    lemma_list_ends(src@, at as int, keys.deep_view(), sep, item);
                }
                break ;
            },
            Ok((key, next)) => {
                let ghost before = keys;
                keys.push(key);
                proof {
                    lemma_list_grows(
                        src@,
                        at as int,
                        before.deep_view(),
                        sep,
                        item,
                        key.deep_view(),
                        next as int,
                    );
                    lemma_pushed(before, keys, key);
                }
                at = next;
            },
        }
    }
    Ok((keys, at))
}

} // verus!
