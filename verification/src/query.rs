//! The grammar of a whole query: the search terms, then the operators with
//! `|` before each of them, up to the end of the text.

use vstd::prelude::*;
use crate::aggregate::{multi_aggregate_operator, spec_multi_aggregate_operator};
use crate::ast::{Operator, OperatorView, Query, QueryView};
use crate::chars::CharClass;
use crate::errors::{ParseError, SyntaxError};
use crate::inline::{inline_operator, spec_inline_operator};
use crate::keyword::{Keyword, KeywordType, KeywordView};
use crate::laws::{headed, lemma_query_round_trip};
use crate::lexical::{
    Outcome, Parsed, agrees, at_char, has_char, keyword, miss, optional, or_else, quoted_string,
    skip, sp, spec_keyword, spec_quoted_string, spec_trim, trimmed, within,
};
use crate::lists::{
    lemma_list_ends, lemma_list_fails, lemma_list_grows, lemma_none, lemma_pushed, lemma_single,
    list1, list_rest,
};
use crate::recovery::{did_you_mean_operator, spec_did_you_mean_operator};
use crate::sort::{sort, spec_sort};
use crate::source::Source;

verus! {

/// A search term: a quoted string, which is searched for as it is, or a
/// bare keyword, which may hold wildcards and loses the `*` at its start
/// and end.
pub open spec fn spec_filter_cond(s: Seq<char>, i: int) -> Parsed<KeywordView> {
    match spec_quoted_string(s, i) {
        Ok((text, n)) => Ok((KeywordView { text, mode: KeywordType::EXACT }, n)),
        Err(ParseError::Error { .. }) => match spec_keyword(s, i) {
            Ok((text, n)) => Ok(
                (
                    KeywordView {
                        text: spec_trim(text, CharClass::Star),
                        mode: KeywordType::WILDCARD,
                    },
                    n,
                ),
            ),
            Err(e) => Err(e),
        },
        Err(e) => Err(e),
    }
}

/// The rule [`spec_filter_cond`], applied at `pos`.
pub fn filter_cond(src: &Source, pos: usize) -> (r: Outcome<Keyword>)
    requires
        pos <= src@.len(),
    ensures
        agrees(r, spec_filter_cond(src@, pos as int)),
        within(r, pos, src@.len()),
        r matches Err(e) ==> e.wf(),
        r matches Ok((_, n)) ==> pos < n,
{
    match quoted_string(src, pos) {
        Ok((text, n)) => Ok((Keyword::new_exact(text), n)),
        Err(ParseError::Error { .. }) => {
            let end = skip(src, pos, CharClass::Keyword);
            if end > pos {
                Ok((Keyword::new_wildcard(trimmed(src, pos, end, CharClass::Star)), end))
            } else {
                Err(ParseError::Error { at: src.position(pos) })
            }
        },
        Err(e) => Err(e),
    }
}

/// One or more blanks.
pub open spec fn spec_multispace(s: Seq<char>, i: int) -> Parsed<()> {
    if sp(s, i) > i {
        Ok(((), sp(s, i)))
    } else {
        miss(s, i)
    }
}

/// The rule for one or more blanks, as a function of the index.
pub open spec fn multispace_in(s: Seq<char>) -> spec_fn(int) -> Parsed<()> {
    |k: int| spec_multispace(s, k)
}

/// The rule for a search term, as a function of the index.
pub open spec fn filter_cond_in(s: Seq<char>) -> spec_fn(int) -> Parsed<KeywordView> {
    |k: int| spec_filter_cond(s, k)
}

/// A term that is not empty.
pub open spec fn holds_text() -> spec_fn(KeywordView) -> bool {
    |term: KeywordView| term.text.len() > 0
}

/// The search terms: one or more with blanks between them. Terms that are
/// empty are left out.
pub open spec fn spec_filter(s: Seq<char>, i: int) -> Parsed<Seq<KeywordView>> {
    match list1(s, i, multispace_in(s), filter_cond_in(s)) {
        Ok((terms, n)) => Ok((terms.filter(holds_text()), n)),
        Err(e) => Err(e),
    }
}

/// The rule [`spec_filter`], applied at `pos`.
pub fn filter(src: &Source, pos: usize) -> (r: Outcome<Vec<Keyword>>)
    requires
        pos <= src@.len(),
    ensures
        agrees(r, spec_filter(src@, pos as int)),
        within(r, pos, src@.len()),
        r matches Err(e) ==> e.wf(),
{
    let ghost sep = multispace_in(src@);
    let ghost item = filter_cond_in(src@);
    let (first, after) = filter_cond(src, pos)?;
    let ghost mut all: Seq<KeywordView> = seq![first.deep_view()];
    let ghost goal = list_rest(src@, after as int, all, sep, item);
    let mut at: usize = after;
    let mut kept: Vec<Keyword> = Vec::new();
    proof {
        lemma_none(kept);
        reveal_with_fuel(Seq::filter, 2);
        assert(all.drop_last() =~= Seq::<KeywordView>::empty());
        assert(all.last() == first.deep_view());
        assert(all.drop_last().filter(holds_text()) =~= Seq::<KeywordView>::empty());
    }
    if !first.is_empty() {
        let ghost before = kept;
        kept.push(first);
        proof {
            lemma_pushed(before, kept, first);
        }
    }
    loop
        invariant
            pos < at <= src@.len(),
            sep == multispace_in(src@),
            item == filter_cond_in(src@),
            list1(src@, pos as int, sep, item) == goal,
            list_rest(src@, at as int, all, sep, item) == goal,
            kept.deep_view() == all.filter(holds_text()),
        ensures
            pos < at <= src@.len(),
            goal == Ok::<(Seq<KeywordView>, int), ParseError>((all, at as int)),
            kept.deep_view() == all.filter(holds_text()),
        decreases src@.len() - at,
    {
        let k = skip(src, at, CharClass::MultiSpace);
        if k <= at {
            proof {
                lemma_list_ends(src@, at as int, all, sep, item);
            }
            break ;
        }
        match filter_cond(src, k) {
            Err(e) => {
                if e.fatal() {
                    proof {
                        lemma_list_fails(src@, at as int, all, sep, item, e);
                    }
                    return Err(e);
                }
                proof {
                    lemma_list_ends(src@, at as int, all, sep, item);
                }
                break ;
            },
            Ok((term, next)) => {
                proof {
                    reveal(Seq::filter);
                    lemma_list_grows(
                        src@,
                        at as int,
                        all,
                        sep,
                        item,
                        term.deep_view(),
                        next as int,
                    );
                    assert(all.push(term.deep_view()).drop_last() =~= all);
                    all = all.push(term.deep_view());
                }
                if !term.is_empty() {
                    let ghost before = kept;
                    kept.push(term);
                    proof {
                        lemma_pushed(before, kept, term);
                    }
                }
                at = next;
            },
        }
    }
    Ok((kept, at))
}

/// An operator. The word at `i` has to be the name of one, or the parse
/// fails. Then the first of the inline operators, `sort` and the aggregate
/// operator that matches is taken.
pub open spec fn spec_operator(s: Seq<char>, i: int) -> Parsed<OperatorView> {
    match spec_did_you_mean_operator(s, i) {
        Ok(_) => or_else(
            spec_inline_operator(s, i),
            or_else(spec_sort(s, i), spec_multi_aggregate_operator(s, i)),
        ),
        Err(e) => Err(e),
    }
}

/// The rule [`spec_operator`], applied at `pos`.
pub fn operator(src: &Source, pos: usize) -> (r: Outcome<Operator>)
    requires
        pos <= src@.len(),
    ensures
        agrees(r, spec_operator(src@, pos as int)),
        within(r, pos, src@.len()),
        r matches Err(e) ==> e.wf(),
        r matches Ok((op, _)) ==> op.deep_view().wf(),
{
    let _ = did_you_mean_operator(src, pos)?;
    match inline_operator(src, pos) {
        Err(ParseError::Error { .. }) => {},
        other => {
            return other;
        },
    }
    match sort(src, pos) {
        Err(ParseError::Error { .. }) => {},
        other => {
            return other;
        },
    }
    multi_aggregate_operator(src, pos)
}

/// A `|`.
pub open spec fn spec_pipe(s: Seq<char>, i: int) -> Parsed<()> {
    if has_char(s, i, '|') {
        Ok(((), i + 1))
    } else {
        miss(s, i)
    }
}

/// The rule for a `|`, as a function of the index.
pub open spec fn pipe_in(s: Seq<char>) -> spec_fn(int) -> Parsed<()> {
    |k: int| spec_pipe(s, k)
}

/// The rule for an operator, as a function of the index.
pub open spec fn operator_in(s: Seq<char>) -> spec_fn(int) -> Parsed<OperatorView> {
    |k: int| spec_operator(s, k)
}

/// The pipeline: a `|`, and one or more operators with `|` between them.
pub open spec fn spec_pipeline(s: Seq<char>, i: int) -> Parsed<Seq<OperatorView>> {
    if has_char(s, i, '|') {
        match list1(s, sp(s, i + 1), pipe_in(s), operator_in(s)) {
            Ok((operators, n)) => Ok((operators, sp(s, n))),
            Err(e) => Err(e),
        }
    } else {
        miss(s, i)
    }
}

/// One or more operators with `|` between them.
fn operators(src: &Source, pos: usize) -> (r: Outcome<Vec<Operator>>)
    requires
        pos <= src@.len(),
    ensures
        agrees(r, list1(src@, pos as int, pipe_in(src@), operator_in(src@))),
        within(r, pos, src@.len()),
        r matches Err(e) ==> e.wf(),
        r matches Ok((list, _)) ==> forall|k: int|
            0 <= k < list@.len() ==> (#[trigger] list@[k]).deep_view().wf(),
{
    let ghost sep = pipe_in(src@);
    let ghost item = operator_in(src@);
    let (first, after) = operator(src, pos)?;
    if after <= pos {
        return Err(ParseError::Error { at: src.position(pos) });
    }
    let ghost goal = list_rest(src@, after as int, seq![first.deep_view()], sep, item);
    let mut at: usize = after;
    let mut list: Vec<Operator> = Vec::new();
    list.push(first);
    proof {
        lemma_single(list, first);
    }
    loop
        invariant
            pos < at <= src@.len(),
            sep == pipe_in(src@),
            item == operator_in(src@),
            list1(src@, pos as int, sep, item) == goal,
            list_rest(src@, at as int, list.deep_view(), sep, item) == goal,
            forall|k: int| 0 <= k < list@.len() ==> (#[trigger] list@[k]).deep_view().wf(),
        ensures
            pos < at <= src@.len(),
            goal == Ok::<(Seq<OperatorView>, int), ParseError>((list.deep_view(), at as int)),
            forall|k: int| 0 <= k < list@.len() ==> (#[trigger] list@[k]).deep_view().wf(),
        decreases src@.len() - at,
    {
        if !at_char(src, at, '|') {
            proof {
                lemma_list_ends(src@, at as int, list.deep_view(), sep, item);
            }
            break ;
        }
        match operator(src, at + 1) {
            Err(e) => {
                if e.fatal() {
                    proof {
                        lemma_list_fails(src@, at as int, list.deep_view(), sep, item, e);
                    }
                    return Err(e);
                }
                proof {
                    lemma_list_ends(src@, at as int, list.deep_view(), sep, item);
                }
                break ;
            },
            Ok((op, next)) => {
                if next <= at + 1 {
                    proof {
                        lemma_list_ends(src@, at as int, list.deep_view(), sep, item);
                    }
                    break ;
                }
                let ghost before = list;
                list.push(op);
                proof {
                    lemma_list_grows(
                        src@,
                        at as int,
                        before.deep_view(),
                        sep,
                        item,
                        op.deep_view(),
                        next as int,
                    );
                    lemma_pushed(before, list, op);
                }
                at = next;
            },
        }
    }
    Ok((list, at))
}

/// The rule [`spec_pipeline`], applied at `pos`.
fn pipeline(src: &Source, pos: usize) -> (r: Outcome<Vec<Operator>>)
    requires
        pos <= src@.len(),
    ensures
        agrees(r, spec_pipeline(src@, pos as int)),
        within(r, pos, src@.len()),
        r matches Err(e) ==> e.wf(),
        r matches Ok((list, _)) ==> forall|k: int|
            0 <= k < list@.len() ==> (#[trigger] list@[k]).deep_view().wf(),
{
    if !at_char(src, pos, '|') {
        return Err(ParseError::Error { at: src.position(pos) });
    }
    let (list, n) = operators(src, skip(src, pos + 1, CharClass::MultiSpace))?;
    Ok((list, skip(src, n, CharClass::MultiSpace)))
}

/// The terms that were given, or else none.
pub open spec fn terms_or_none(given: Option<Seq<KeywordView>>) -> Seq<KeywordView> {
    match given {
        Some(terms) => terms,
        None => Seq::empty(),
    }
}

/// The operators that were given, or else none.
pub open spec fn operators_or_none(given: Option<Seq<OperatorView>>) -> Seq<OperatorView> {
    match given {
        Some(operators) => operators,
        None => Seq::empty(),
    }
}

/// A query: after blanks the search terms, where there are any, then the
/// pipeline, where there is one, and blanks up to the end of the text.
/// Text that is left over is a mismatch at the place where it starts.
pub open spec fn spec_query(s: Seq<char>, i: int) -> Parsed<QueryView> {
    match optional(spec_filter(s, sp(s, i)), sp(s, i)) {
        Ok((search, n)) => match optional(spec_pipeline(s, sp(s, n)), sp(s, n)) {
            Ok((operators, m)) => if sp(s, m) == s.len() {
                Ok(
                    (
                        QueryView {
                            search: terms_or_none(search),
                            operators: operators_or_none(operators),
                        },
                        sp(s, m),
                    ),
                )
            } else {
                miss(s, sp(s, m))
            },
            Err(e) => Err(e),
        },
        Err(e) => Err(e),
    }
}

/// The rule [`spec_query`], applied at `pos`.
pub fn query(src: &Source, pos: usize) -> (r: Outcome<Query>)
    requires
        pos <= src@.len(),
    ensures
        agrees(r, spec_query(src@, pos as int)),
        r matches Ok((_, n)) ==> n == src@.len(),
        r matches Err(e) ==> e.wf(),
        r matches Ok((q, _)) ==> q.deep_view().wf(),
{
    let j = skip(src, pos, CharClass::MultiSpace);
    let (search, n) = match filter(src, j) {
        Ok((terms, n)) => (terms, n),
        Err(ParseError::Error { .. }) => {
            let none: Vec<Keyword> = Vec::new();
            proof {
                lemma_none(none);
            }
            (none, j)
        },
        Err(e) => {
            return Err(e);
        },
    };
    let k = skip(src, n, CharClass::MultiSpace);
    let (operators, m) = match pipeline(src, k) {
        Ok((list, m)) => (list, m),
        Err(ParseError::Error { .. }) => {
            let none: Vec<Operator> = Vec::new();
            proof {
                lemma_none(none);
            }
            (none, k)
        },
        Err(e) => {
            return Err(e);
        },
    };
    let end = skip(src, m, CharClass::MultiSpace);
    if end == src.len() {
        Ok((Query { search, operators }, end))
    } else {
        Err(ParseError::Error { at: src.position(end) })
    }
}

/// What parsing a whole text gives: the query, or the error as a caller
/// sees it.
pub open spec fn spec_parse_query(s: Seq<char>) -> Result<QueryView, SyntaxError> {
    match spec_query(s, 0) {
        Ok((q, _)) => Ok(q),
        Err(e) => Err(e.report()),
    }
}

/// Parses the text of a query. The query has to take the whole text. In
/// the query that comes out no span ends before it starts, and the header
/// of each key that an operator groups by is the text that the key was
/// written as, and parses alone to the key.
pub fn parse_query(text: &str) -> (r: Result<Query, SyntaxError>)
    ensures
        match r {
            Ok(q) => spec_parse_query(text@) == Ok::<QueryView, SyntaxError>(q.deep_view()),
            Err(e) => spec_parse_query(text@) == Err::<QueryView, SyntaxError>(e),
        },
        r matches Ok(q) ==> q.deep_view().wf(),
        r matches Err(e) ==> e.wf(),
        r matches Ok(q) ==> forall|k: int|
            0 <= k < q.deep_view().operators.len() ==> headed(
                text@,
                #[trigger] q.deep_view().operators[k],
            ),
{
    let src = Source::new(text);
    match query(&src, 0) {
        Ok((q, _)) => {
            proof {
                lemma_query_round_trip(text@, 0);
            }
            Ok(q)
        },
        Err(e) => Err(e.to_syntax_error()),
    }
}

} // verus!
