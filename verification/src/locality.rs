//! An expression reads no more of the text than the characters that it
//! takes: cut out of the text, they parse to the same expression.

use vstd::prelude::*;
use crate::ast::ExprView;
use crate::chars::CharClass;
use crate::errors::ParseError;
use crate::expr::{
    lemma_binary_advances, lemma_e_ident_advances, lemma_expr_advances,
    lemma_sp, lemma_unary_advances, lemma_value_advances, spec_binary, spec_comp_op,
    spec_e_ident, spec_expr, spec_sourced_expr, spec_unary, spec_value,
};
use crate::lexical::{
    body_end, has_char, has_tag, lemma_body_end, lemma_ident_advances,
    lemma_quoted_string_advances, lemma_run_end, run_end, sp, spec_ident, spec_quoted_string,
};

verus! {

/// A rule does not match.
pub open spec fn is_miss<T>(r: Result<(T, int), ParseError>) -> bool {
    r matches Err(ParseError::Error { .. })
}

/// In a part of the text, a run ends where it ends in the text, or at the
/// end of the part.
pub proof fn lemma_part_run_end(s: Seq<char>, a: int, b: int, i: int, class: CharClass)
    requires
        0 <= a <= i <= b <= s.len(),
    ensures
        run_end(s.subrange(a, b), i - a, class) == if run_end(s, i, class) <= b {
            run_end(s, i, class) - a
        } else {
            b - a
        },
    decreases b - i,
{
    lemma_run_end(s, i, class);
    if i < b && class.holds(s[i]) {
        lemma_part_run_end(s, a, b, i + 1, class);
    }
}

/// A part of the text holds a word where the text holds it and the word
/// ends in the part.
pub proof fn lemma_part_has_tag(s: Seq<char>, a: int, b: int, i: int, word: Seq<char>)
    requires
        0 <= a <= i <= b <= s.len(),
    ensures
        has_tag(s.subrange(a, b), i - a, word) <==> has_tag(s, i, word) && i + word.len() <= b,
{
    let part = s.subrange(a, b);
    if i + word.len() <= b {
        assert(part.subrange(i - a, i - a + word.len()) =~= s.subrange(i, i + word.len()));
    }
}

/// In a part of the text that holds an identifier, the identifier is the
/// same. Where the text holds none, the part holds none.
pub proof fn lemma_part_ident(s: Seq<char>, a: int, b: int, i: int)
    requires
        0 <= a <= i <= b <= s.len(),
    ensures
        spec_ident(s, i) matches Ok((name, n)) ==> n <= b ==> spec_ident(s.subrange(a, b), i - a)
            == Ok::<(Seq<char>, int), ParseError>((name, n - a)),
        spec_ident(s, i) is Err ==> spec_ident(s.subrange(a, b), i - a) is Err,
{
    let part = s.subrange(a, b);
    lemma_part_run_end(s, a, b, i, CharClass::Ident);
    lemma_ident_advances(s, i);
    if let Ok((name, n)) = spec_ident(s, i) {
        if n <= b {
            assert(part.subrange(i - a, n - a) =~= s.subrange(i, n));
        }
    }
}

/// In a part of the text that holds the body of a quoted string and the
/// quote that closes it, the body ends at the same character.
pub proof fn lemma_part_body_end(s: Seq<char>, a: int, b: int, i: int, quote: char)
    requires
        0 <= a <= i <= b <= s.len(),
        body_end(s, i, quote) < b,
    ensures
        body_end(s.subrange(a, b), i - a, quote) == body_end(s, i, quote) - a,
    decreases b - i,
{
    lemma_body_end(s, i, quote);
    if i < s.len() && s[i] != quote {
        if s[i] == '\\' {
            if i + 1 < s.len() {
                lemma_body_end(s, i + 2, quote);
                lemma_part_body_end(s, a, b, i + 2, quote);
            }
        } else {
            lemma_body_end(s, i + 1, quote);
            lemma_part_body_end(s, a, b, i + 1, quote);
        }
    }
}

/// In a part of the text that holds a quoted string, the string is the
/// same. Where the text holds no quote, the part holds no string.
pub proof fn lemma_part_quoted_string(s: Seq<char>, a: int, b: int, i: int)
    requires
        0 <= a <= i <= b <= s.len(),
    ensures
        spec_quoted_string(s, i) matches Ok((text, n)) ==> n <= b ==> spec_quoted_string(
            s.subrange(a, b),
            i - a,
        ) == Ok::<(Seq<char>, int), ParseError>((text, n - a)),
        !has_char(s, i, '"') && !has_char(s, i, '\'') ==> is_miss(
            spec_quoted_string(s.subrange(a, b), i - a),
        ),
{
    let part = s.subrange(a, b);
    if let Ok((text, n)) = spec_quoted_string(s, i) {
        if n <= b {
            let quote = if has_char(s, i, '"') {
                '"'
            } else {
                '\''
            };
            lemma_body_end(s, i + 1, quote);
            lemma_part_body_end(s, a, b, i + 1, quote);
            assert(part.subrange(i + 1 - a, n - 1 - a) =~= s.subrange(i + 1, n - 1));
        }
    }
}

/// In a part of the text that holds a literal, the literal is the same.
/// Where the text holds neither a quote nor a digit after the blanks, the
/// part holds no literal.
pub proof fn lemma_part_value(s: Seq<char>, a: int, b: int, i: int)
    requires
        0 <= a <= i <= b <= s.len(),
    ensures
        spec_value(s, i) matches Ok((v, n)) ==> n <= b ==> spec_value(s.subrange(a, b), i - a)
            == Ok::<(crate::ast::ValueView, int), ParseError>((v, n - a)),
        sp(s, i) <= b && !has_char(s, sp(s, i), '"') && !has_char(s, sp(s, i), '\'')
            && run_end(s, sp(s, i), CharClass::Digit) == sp(s, i) ==> is_miss(
            spec_value(s.subrange(a, b), i - a),
        ),
{
    let part = s.subrange(a, b);
    let j = sp(s, i);
    lemma_sp(s, i);
    lemma_part_run_end(s, a, b, i, CharClass::MultiSpace);
    lemma_quoted_string_advances(s, j);
    lemma_run_end(s, j, CharClass::Digit);
    if j <= b {
        lemma_part_quoted_string(s, a, b, j);
        lemma_part_run_end(s, a, b, j, CharClass::Digit);
    }
    if let Ok((v, n)) = spec_value(s, i) {
        if n <= b {
            match spec_quoted_string(s, j) {
                Ok((_, m)) => {
                    lemma_sp(s, m);
                    lemma_part_run_end(s, a, b, m, CharClass::MultiSpace);
                },
                _ => {
                    let m = run_end(s, j, CharClass::Digit);
                    lemma_sp(s, m);
                    lemma_part_run_end(s, a, b, m, CharClass::MultiSpace);
                    assert(part.subrange(j - a, m - a) =~= s.subrange(j, m));
                    assert(CharClass::Digit.holds(s[j]));
                },
            }
        }
    }
}

/// In a part of the text that holds a comparison operator, the operator is
/// the same. At the end of the part and before a `)` there is none.
pub proof fn lemma_part_comp_op(s: Seq<char>, a: int, b: int, i: int)
    requires
        0 <= a <= i <= b <= s.len(),
    ensures
        spec_comp_op(s, i) matches Ok((op, n)) ==> n <= b ==> spec_comp_op(
            s.subrange(a, b),
            i - a,
        ) == Ok::<(crate::ast::ComparisonOp, int), ParseError>((op, n - a)),
        i == b || has_char(s, i, ')') ==> is_miss(spec_comp_op(s.subrange(a, b), i - a)),
{
    let part = s.subrange(a, b);
    let j = sp(s, i);
    reveal_strlit("==");
    reveal_strlit("<=");
    reveal_strlit(">=");
    reveal_strlit("!=");
    reveal_strlit(">");
    reveal_strlit("<");
    lemma_sp(s, i);
    lemma_part_run_end(s, a, b, i, CharClass::MultiSpace);
    if j <= b {
        lemma_part_has_tag(s, a, b, j, "=="@);
        lemma_part_has_tag(s, a, b, j, "<="@);
        lemma_part_has_tag(s, a, b, j, ">="@);
        lemma_part_has_tag(s, a, b, j, "!="@);
        lemma_part_has_tag(s, a, b, j, ">"@);
        lemma_part_has_tag(s, a, b, j, "<"@);
    }
    if let Ok((op, n)) = spec_comp_op(s, i) {
        if n <= b {
            lemma_sp(s, j + 1);
            lemma_sp(s, j + 2);
            lemma_part_run_end(s, a, b, j + 1, CharClass::MultiSpace);
            if j + 2 <= b {
                lemma_part_run_end(s, a, b, j + 2, CharClass::MultiSpace);
            }
        }
    }
    if has_char(s, i, ')') {
        assert(!CharClass::MultiSpace.holds(s[i]));
        if has_tag(s, j, "=="@) {
            assert(s.subrange(j, j + 2)[0] == "=="@[0]);
        }
        if has_tag(s, j, "<="@) {
            assert(s.subrange(j, j + 2)[0] == "<="@[0]);
        }
        if has_tag(s, j, ">="@) {
            assert(s.subrange(j, j + 2)[0] == ">="@[0]);
        }
        if has_tag(s, j, "!="@) {
            assert(s.subrange(j, j + 2)[0] == "!="@[0]);
        }
        if has_tag(s, j, ">"@) {
            assert(s.subrange(j, j + 1)[0] == ">"@[0]);
        }
        if has_tag(s, j, "<"@) {
            assert(s.subrange(j, j + 1)[0] == "<"@[0]);
        }
    }
}

/// In a part of the text that holds an operand, the operand is the same.
/// Where `!` stands after the blanks, the part holds no operand.
pub proof fn lemma_part_e_ident(s: Seq<char>, a: int, b: int, i: int)
    requires
        0 <= a <= i <= b <= s.len(),
    ensures
        spec_e_ident(s, i) matches Ok((e, n)) ==> n <= b ==> spec_e_ident(s.subrange(a, b), i - a)
            == Ok::<(ExprView, int), ParseError>((e, n - a)),
        sp(s, i) <= b && has_char(s, sp(s, i), '!') ==> is_miss(
            spec_e_ident(s.subrange(a, b), i - a),
        ),
    decreases s.len() - i, 0nat,
{
    let part = s.subrange(a, b);
    let j = sp(s, i);
    lemma_sp(s, i);
    lemma_part_run_end(s, a, b, i, CharClass::MultiSpace);
    lemma_e_ident_advances(s, i);
    lemma_ident_advances(s, j);
    lemma_value_advances(s, j);
    if j <= b {
        lemma_part_ident(s, a, b, j);
        lemma_part_value(s, a, b, j);
        lemma_part_run_end(s, a, b, j, CharClass::MultiSpace);
        lemma_run_end(s, j, CharClass::Digit);
    }
    if let Ok((e, n)) = spec_e_ident(s, i) {
        if n <= b {
            match spec_ident(s, j) {
                Ok((_, m)) => {
                    lemma_sp(s, m);
                    lemma_part_run_end(s, a, b, m, CharClass::MultiSpace);
                },
                Err(_) => {
                    if spec_value(s, j) is Err {
                        lemma_expr_advances(s, j + 1);
                        let m = spec_expr(s, j + 1)->Ok_0.1;
                        lemma_sp(s, m + 1);
                        lemma_part_expr(s, a, b, j + 1);
                        lemma_part_run_end(s, a, b, m + 1, CharClass::MultiSpace);
                    }
                },
            }
        }
    }
}

/// In a part of the text that holds a comparison, the comparison is the
/// same.
pub proof fn lemma_part_binary(s: Seq<char>, a: int, b: int, i: int)
    requires
        0 <= a <= i <= b <= s.len(),
    ensures
        spec_binary(s, i) matches Ok((e, n)) ==> n <= b ==> spec_binary(s.subrange(a, b), i - a)
            == Ok::<(ExprView, int), ParseError>((e, n - a)),
    decreases s.len() - i, 1nat,
{
    lemma_binary_advances(s, i);
    if let Ok((e, n)) = spec_binary(s, i) {
        if n <= b {
            let n1 = spec_e_ident(s, i)->Ok_0.1;
            let n2 = spec_comp_op(s, n1)->Ok_0.1;
            lemma_e_ident_advances(s, n2);
            lemma_part_e_ident(s, a, b, i);
            lemma_part_comp_op(s, a, b, n1);
            lemma_part_e_ident(s, a, b, n2);
        }
    }
}

/// In a part of the text that holds a negation, the negation is the same.
pub proof fn lemma_part_unary(s: Seq<char>, a: int, b: int, i: int)
    requires
        0 <= a <= i <= b <= s.len(),
    ensures
        spec_unary(s, i) matches Ok((e, n)) ==> n <= b ==> spec_unary(s.subrange(a, b), i - a)
            == Ok::<(ExprView, int), ParseError>((e, n - a)),
        sp(s, i) <= b && !has_char(s, sp(s, i), '!') ==> is_miss(
            spec_unary(s.subrange(a, b), i - a),
        ),
    decreases s.len() - i, 1nat,
{
    let j = sp(s, i);
    lemma_sp(s, i);
    lemma_unary_advances(s, i);
    lemma_part_run_end(s, a, b, i, CharClass::MultiSpace);
    if let Ok((e, n)) = spec_unary(s, i) {
        if n <= b {
            let n1 = sp(s, j + 1);
            lemma_sp(s, j + 1);
            lemma_e_ident_advances(s, n1);
            lemma_part_run_end(s, a, b, j + 1, CharClass::MultiSpace);
            lemma_part_e_ident(s, a, b, n1);
        }
    }
}

/// In a part of the text that holds an expression and ends behind it, or
/// holds a `)` behind it, the expression is the same.
pub proof fn lemma_part_expr(s: Seq<char>, a: int, b: int, i: int)
    requires
        0 <= a <= i <= b <= s.len(),
    ensures
        spec_expr(s, i) matches Ok((e, n)) ==> n <= b && (n == b || has_char(s, n, ')'))
            ==> spec_expr(s.subrange(a, b), i - a) == Ok::<(ExprView, int), ParseError>(
            (e, n - a),
        ),
    decreases s.len() - i, 2nat,
{
    let part = s.subrange(a, b);
    let j = sp(s, i);
    lemma_sp(s, i);
    lemma_expr_advances(s, i);
    lemma_part_run_end(s, a, b, i, CharClass::MultiSpace);
    if let Ok((e, n)) = spec_expr(s, i) {
        if n <= b && (n == b || has_char(s, n, ')')) {
            lemma_sp(s, j);
            lemma_binary_advances(s, j);
            lemma_unary_advances(s, j);
            lemma_e_ident_advances(s, j);
            assert(j < n);
            lemma_part_run_end(s, a, b, j, CharClass::MultiSpace);
            lemma_part_binary(s, a, b, j);
            lemma_part_unary(s, a, b, j);
            lemma_part_e_ident(s, a, b, j);
            if spec_binary(s, j) is Err {
                if let Ok((_, n1)) = spec_e_ident(s, j) {
                    lemma_part_comp_op(s, a, b, n1);
                }
            }
        }
    }
}

/// The law of the part: the characters that an expression takes, cut out of
/// the text, parse to the same expression, and all of them are taken.
pub proof fn lemma_expr_alone(s: Seq<char>, i: int)
    requires
        0 <= i <= s.len(),
    ensures
        spec_expr(s, i) matches Ok((e, n)) ==> i <= n <= s.len() && spec_expr(
            s.subrange(i, n),
            0,
        ) == Ok::<(ExprView, int), ParseError>((e, n - i)),
{
    lemma_expr_advances(s, i);
    if let Ok((e, n)) = spec_expr(s, i) {
        lemma_part_expr(s, i, n, i);
    }
}

/// The key of a group is the expression that its characters parse to when
/// they stand alone.
pub proof fn lemma_sourced_expr_alone(s: Seq<char>, i: int)
    requires
        0 <= i <= s.len(),
    ensures
        spec_sourced_expr(s, i) matches Ok((key, n)) ==> sp(s, i) <= n <= s.len() && spec_expr(
            s.subrange(sp(s, i), n),
            0,
        ) == Ok::<(ExprView, int), ParseError>((key.1, n - sp(s, i))),
{
    lemma_sp(s, i);
    lemma_expr_alone(s, sp(s, i));
}

} // verus!
