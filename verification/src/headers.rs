//! The header of a key: the characters that the key took, without the white
//! space at their start and end, parse alone to the key.

use vstd::prelude::*;
use crate::ast::ExprView;
use crate::chars::{CharClass, spec_is_whitespace};
use crate::errors::ParseError;
use crate::expr::{
    lemma_binary_advances, lemma_e_ident_advances, lemma_expr_advances, lemma_sp,
    lemma_unary_advances, spec_binary, spec_comp_op, spec_e_ident, spec_expr,
    spec_sourced_expr, spec_unary, spec_value,
};
use crate::lexical::{
    lemma_body_end, lemma_ident_advances, lemma_quoted_string_advances, lemma_run_end, run_end,
    run_start, sp, spec_ident, spec_quoted_string, spec_trim,
};
use crate::locality::{
    lemma_part_comp_op, lemma_part_e_ident, lemma_part_expr, lemma_part_ident,
    lemma_part_quoted_string, lemma_part_run_end, lemma_part_unary, lemma_part_value,
};

verus! {

/// The index behind the last character that stands before the blanks that
/// end at `n`.
pub open spec fn tight(s: Seq<char>, n: int) -> int {
    run_start(s, 0, n, CharClass::MultiSpace)
}

/// A run that ends at `n` starts at `m` where every character from `m` on
/// is of the class and the one before `m` is not.
pub proof fn lemma_run_start_is(t: Seq<char>, m: int, n: int, class: CharClass)
    requires
        0 < m <= n <= t.len(),
        forall|k: int| m <= k < n ==> class.holds(#[trigger] t[k]),
        !class.holds(t[m - 1]),
    ensures
        run_start(t, 0, n, class) == m,
    decreases n - m,
{
    if m < n {
        assert(class.holds(t[n - 1]));
        lemma_run_start_is(t, m, n - 1, class);
    }
}

/// Skipping blanks twice is skipping them once.
pub proof fn lemma_sp_twice(s: Seq<char>, i: int)
    requires
        0 <= i <= s.len(),
    ensures
        sp(s, sp(s, i)) == sp(s, i),
{
    lemma_run_end(s, i, CharClass::MultiSpace);
}

/// Behind a character that is no blank, the blanks up to `n` are all that
/// lies between that character and `n`.
pub proof fn lemma_tight_at(s: Seq<char>, m: int)
    requires
        0 < m <= s.len(),
        !CharClass::MultiSpace.holds(s[m - 1]),
    ensures
        tight(s, sp(s, m)) == m,
        m <= sp(s, m) <= s.len(),
{
    lemma_run_end(s, m, CharClass::MultiSpace);
    lemma_run_start_is(s, m, sp(s, m), CharClass::MultiSpace);
}

/// What ends at `n` starts after the blanks behind `i` with a character
/// that is no white space, and ends before the blanks before `n` with such
/// a character.
pub open spec fn printed(s: Seq<char>, i: int, n: int) -> bool {
    &&& 0 <= sp(s, i) < tight(s, n) <= n <= s.len()
    &&& sp(s, tight(s, n)) == n
    &&& !spec_is_whitespace(s[sp(s, i)])
    &&& !spec_is_whitespace(s[tight(s, n) - 1])
}

/// What holds of an operand that was taken at `i`: it starts and ends with
/// a character that is no white space, and the characters from `a` up to
/// the last of them hold the same operand.
pub open spec fn operand_is_tight(s: Seq<char>, a: int, i: int) -> bool {
    spec_e_ident(s, i) matches Ok((e, n)) ==> printed(s, i, n) && spec_e_ident(
        s.subrange(a, tight(s, n)),
        i - a,
    ) == Ok::<(ExprView, int), ParseError>((e, tight(s, n) - a))
}

/// An operand that is a column is tight.
proof fn lemma_tight_column(s: Seq<char>, a: int, i: int)
    requires
        0 <= a <= i <= s.len(),
        spec_ident(s, sp(s, i)) is Ok,
    ensures
        operand_is_tight(s, a, i),
{
    let j = sp(s, i);
    let m = spec_ident(s, j)->Ok_0.1;
    lemma_sp(s, i);
    lemma_sp_twice(s, i);
    lemma_ident_advances(s, j);
    lemma_run_end(s, j, CharClass::Ident);
    assert(CharClass::Ident.holds(s[m - 1]));
    lemma_tight_at(s, m);
    let part = s.subrange(a, m);
    lemma_part_run_end(s, a, m, i, CharClass::MultiSpace);
    lemma_part_ident(s, a, m, j);
    assert(sp(part, m - a) == m - a);
}

/// An operand that is a literal is tight.
proof fn lemma_tight_literal(s: Seq<char>, a: int, i: int)
    requires
        0 <= a <= i <= s.len(),
        spec_ident(s, sp(s, i)) is Err,
        spec_value(s, sp(s, i)) is Ok,
    ensures
        operand_is_tight(s, a, i),
{
    let j = sp(s, i);
    lemma_sp(s, i);
    lemma_sp_twice(s, i);
    lemma_quoted_string_advances(s, j);
    lemma_run_end(s, j, CharClass::Digit);
    let m = match spec_quoted_string(s, j) {
        Ok((_, q)) => q,
        _ => run_end(s, j, CharClass::Digit),
    };
    if spec_quoted_string(s, j) is Ok {
        lemma_body_end(s, j + 1, '"');
        lemma_body_end(s, j + 1, '\'');
        assert(s[m - 1] == '"' || s[m - 1] == '\'');
    } else {
        assert(CharClass::Digit.holds(s[m - 1]));
        assert(CharClass::Digit.holds(s[j]));
    }
    lemma_tight_at(s, m);
    let part = s.subrange(a, m);
    lemma_part_run_end(s, a, m, i, CharClass::MultiSpace);
    lemma_part_run_end(s, a, m, j, CharClass::MultiSpace);
    lemma_part_ident(s, a, m, j);
    lemma_part_quoted_string(s, a, m, j);
    lemma_part_run_end(s, a, m, j, CharClass::Digit);
    assert(part.subrange(j - a, m - a) =~= s.subrange(j, m));
    assert(sp(part, m - a) == m - a);
}

/// An operand in parentheses is tight.
proof fn lemma_tight_parens(s: Seq<char>, a: int, i: int)
    requires
        0 <= a <= i <= s.len(),
        spec_ident(s, sp(s, i)) is Err,
        spec_value(s, sp(s, i)) is Err,
        spec_e_ident(s, i) is Ok,
    ensures
        operand_is_tight(s, a, i),
{
    let j = sp(s, i);
    lemma_sp(s, i);
    lemma_sp_twice(s, i);
    lemma_run_end(s, j, CharClass::Digit);
    lemma_expr_advances(s, j + 1);
    let close = spec_expr(s, j + 1)->Ok_0.1;
    let m = close + 1;
    lemma_tight_at(s, m);
    let part = s.subrange(a, m);
    lemma_part_run_end(s, a, m, i, CharClass::MultiSpace);
    lemma_part_run_end(s, a, m, j, CharClass::MultiSpace);
    lemma_part_ident(s, a, m, j);
    lemma_part_value(s, a, m, j);
    lemma_part_expr(s, a, m, j + 1);
    assert(sp(part, m - a) == m - a);
}

/// An operand starts and ends with a character that is no white space,
/// and the characters from `a` up to the last of them hold the same
/// operand.
pub proof fn lemma_tight_e_ident(s: Seq<char>, a: int, i: int)
    requires
        0 <= a <= i <= s.len(),
    ensures
        spec_e_ident(s, i) matches Ok((e, n)) ==> printed(s, i, n) && spec_e_ident(
            s.subrange(a, tight(s, n)),
            i - a,
        ) == Ok::<(ExprView, int), ParseError>((e, tight(s, n) - a)),
{
    if spec_e_ident(s, i) is Ok {
        if spec_ident(s, sp(s, i)) is Ok {
            lemma_tight_column(s, a, i);
        } else if spec_value(s, sp(s, i)) is Ok {
            lemma_tight_literal(s, a, i);
        } else {
            lemma_tight_parens(s, a, i);
        }
    }
}

/// A comparison starts and ends with a character that is no white space,
/// and the characters from `a` up to the last of them hold the same
/// comparison.
pub proof fn lemma_tight_binary(s: Seq<char>, a: int, i: int)
    requires
        0 <= a <= i <= s.len(),
    ensures
        spec_binary(s, i) matches Ok((e, n)) ==> printed(s, i, n) && spec_binary(
            s.subrange(a, tight(s, n)),
            i - a,
        ) == Ok::<(ExprView, int), ParseError>((e, tight(s, n) - a)),
{
    lemma_binary_advances(s, i);
    if let Ok((e, n)) = spec_binary(s, i) {
        let n1 = spec_e_ident(s, i)->Ok_0.1;
        let n2 = spec_comp_op(s, n1)->Ok_0.1;
        lemma_tight_e_ident(s, a, i);
        lemma_tight_e_ident(s, a, n2);
        lemma_sp(s, n2);
        let m = tight(s, n);
        lemma_part_e_ident(s, a, m, i);
        lemma_part_comp_op(s, a, m, n1);
    }
}

/// A negation starts and ends with a character that is no white space,
/// and the characters from `a` up to the last of them hold the same
/// negation.
pub proof fn lemma_tight_unary(s: Seq<char>, a: int, i: int)
    requires
        0 <= a <= i <= s.len(),
    ensures
        spec_unary(s, i) matches Ok((e, n)) ==> printed(s, i, n) && spec_unary(
            s.subrange(a, tight(s, n)),
            i - a,
        ) == Ok::<(ExprView, int), ParseError>((e, tight(s, n) - a)),
{
    let j = sp(s, i);
    lemma_sp(s, i);
    lemma_unary_advances(s, i);
    if let Ok((e, n)) = spec_unary(s, i) {
        let n1 = sp(s, j + 1);
        lemma_sp(s, j + 1);
        lemma_tight_e_ident(s, a, n1);
        lemma_sp(s, n1);
        let m = tight(s, n);
        lemma_part_run_end(s, a, m, i, CharClass::MultiSpace);
        lemma_part_run_end(s, a, m, j + 1, CharClass::MultiSpace);
    }
}

/// An expression starts and ends with a character that is no white space,
/// and the characters from `a` up to the last of them hold the same
/// expression.
pub proof fn lemma_tight_expr(s: Seq<char>, a: int, i: int)
    requires
        0 <= a <= i <= s.len(),
    ensures
        spec_expr(s, i) matches Ok((e, n)) ==> printed(s, i, n) && spec_expr(
            s.subrange(a, tight(s, n)),
            i - a,
        ) == Ok::<(ExprView, int), ParseError>((e, tight(s, n) - a)),
{
    let j = sp(s, i);
    lemma_sp(s, i);
    lemma_sp_twice(s, i);
    if let Ok((e, n)) = spec_expr(s, i) {
        lemma_tight_binary(s, a, j);
        lemma_tight_unary(s, a, j);
        lemma_tight_e_ident(s, a, j);
        lemma_binary_advances(s, j);
        lemma_unary_advances(s, j);
        lemma_e_ident_advances(s, j);
        let m = tight(s, n);
        lemma_part_run_end(s, a, m, i, CharClass::MultiSpace);
        lemma_part_e_ident(s, a, m, j);
        lemma_part_unary(s, a, m, j);
        if spec_binary(s, j) is Err {
            if spec_e_ident(s, j) is Ok {
                lemma_part_comp_op(s, a, m, m);
            }
        }
    }
}

/// The characters that an expression took, without the white space at their
/// start and end, are the characters from its first to its last one that
/// is no blank, and they parse alone to the same expression.
pub proof fn lemma_trimmed_expr_alone(s: Seq<char>, i: int)
    requires
        0 <= i <= s.len(),
    ensures
        spec_expr(s, i) matches Ok((e, n)) ==> {
            let header = spec_trim(s.subrange(sp(s, i), n), CharClass::Whitespace);
            &&& header == s.subrange(sp(s, i), tight(s, n))
            &&& spec_expr(header, 0) == Ok::<(ExprView, int), ParseError>(
                (e, header.len() as int),
            )
        },
{
    let j = sp(s, i);
    lemma_sp(s, i);
    lemma_sp_twice(s, i);
    if let Ok((e, n)) = spec_expr(s, i) {
        lemma_tight_expr(s, j, j);
        let m = tight(s, n);
        let taken = s.subrange(j, n);
        lemma_run_end(s, m, CharClass::MultiSpace);
        assert(!CharClass::Whitespace.holds(taken[0]));
        assert forall|k: int| m - j <= k < n - j implies CharClass::Whitespace.holds(
            #[trigger] taken[k],
        ) by {
            assert(CharClass::MultiSpace.holds(s[k + j]));
        }
        assert(!CharClass::Whitespace.holds(taken[m - j - 1]));
        lemma_run_start_is(taken, m - j, n - j, CharClass::Whitespace);
        assert(taken.subrange(0, m - j) =~= s.subrange(j, m));
    }
}

/// The header of a key parses alone to the key.
pub proof fn lemma_header_alone(s: Seq<char>, i: int)
    requires
        0 <= i <= s.len(),
    ensures
        spec_sourced_expr(s, i) matches Ok((key, _)) ==> spec_expr(key.0, 0) == Ok::<
            (ExprView, int),
            ParseError,
        >((key.1, key.0.len() as int)),
{
    lemma_sp(s, i);
    lemma_sp_twice(s, i);
    lemma_trimmed_expr_alone(s, sp(s, i));
}

} // verus!
