//! The `sort` operator.

use vstd::prelude::*;
use crate::ast::{Operator, OperatorView, SortMode, SortOperator, SortOperatorView};
use crate::chars::CharClass;
use crate::errors::ParseError;
use crate::expr::{spec_var_list, var_list};
use crate::lexical::{
    Outcome, Parsed, agrees, has_tag, miss, optional, skip, sp, spec_ws_tag, tag, within, ws_tag,
};
use crate::lists::lemma_none;
use crate::source::Source;

verus! {

/// The direction of a sort: `ascending` or `asc`, or `descending`, `desc`
/// or `dsc`.
pub open spec fn spec_sort_mode(s: Seq<char>, i: int) -> Parsed<SortMode> {
    if has_tag(s, i, "ascending"@) {
        Ok((SortMode::Ascending, i + "ascending"@.len()))
    } else if has_tag(s, i, "asc"@) {
        Ok((SortMode::Ascending, i + "asc"@.len()))
    } else if has_tag(s, i, "descending"@) {
        Ok((SortMode::Descending, i + "descending"@.len()))
    } else if has_tag(s, i, "desc"@) {
        Ok((SortMode::Descending, i + "desc"@.len()))
    } else if has_tag(s, i, "dsc"@) {
        Ok((SortMode::Descending, i + "dsc"@.len()))
    } else {
        miss(s, i)
    }
}

/// The rule [`spec_sort_mode`], applied at `pos`.
pub fn sort_mode(src: &Source, pos: usize) -> (r: Outcome<SortMode>)
    requires
        pos <= src@.len(),
    ensures
        agrees(r, spec_sort_mode(src@, pos as int)),
        within(r, pos, src@.len()),
        r matches Err(e) ==> e.wf(),
        r is Err ==> !r->Err_0.is_fatal(),
{
    if let Ok((_, n)) = tag(src, pos, "ascending") {
        Ok((SortMode::Ascending, n))
    } else if let Ok((_, n)) = tag(src, pos, "asc") {
        Ok((SortMode::Ascending, n))
    } else if let Ok((_, n)) = tag(src, pos, "descending") {
        Ok((SortMode::Descending, n))
    } else if let Ok((_, n)) = tag(src, pos, "desc") {
        Ok((SortMode::Descending, n))
    } else if let Ok((_, n)) = tag(src, pos, "dsc") {
        Ok((SortMode::Descending, n))
    } else {
        Err(ParseError::Error { at: src.position(pos) })
    }
}

/// The columns to sort by, with or without `by` before them.
pub open spec fn spec_sort_cols(s: Seq<char>, i: int) -> Parsed<Seq<Seq<char>>> {
    if has_tag(s, i, "by"@) {
        spec_var_list(s, i + "by"@.len())
    } else {
        spec_var_list(s, i)
    }
}

/// The columns that were given, or else none.
pub open spec fn cols_or_none(given: Option<Seq<Seq<char>>>) -> Seq<Seq<char>> {
    match given {
        Some(cols) => cols,
        None => Seq::empty(),
    }
}

/// The direction that was given, or else ascending.
pub open spec fn mode_or_ascending(given: Option<SortMode>) -> SortMode {
    match given {
        Some(mode) => mode,
        None => SortMode::Ascending,
    }
}

/// `sort [by] [IDENT(, IDENT)*] [DIRECTION]`.
pub open spec fn spec_sort(s: Seq<char>, i: int) -> Parsed<OperatorView> {
    match spec_ws_tag(s, i, "sort"@) {
        Ok((_, n)) => match optional(spec_sort_cols(s, sp(s, n)), sp(s, n)) {
            Ok((cols, a)) => match optional(spec_sort_mode(s, sp(s, a)), sp(s, a)) {
                Ok((mode, b)) => Ok(
                    (
                        OperatorView::Sort(
                            SortOperatorView {
                                sort_cols: cols_or_none(cols),
                                direction: mode_or_ascending(mode),
                            },
                        ),
                        sp(s, b),
                    ),
                ),
                Err(e) => Err(e),
            },
            Err(e) => Err(e),
        },
        Err(e) => Err(e),
    }
}

/// The rule [`spec_sort_cols`], applied at `pos`.
fn sort_cols(src: &Source, pos: usize) -> (r: Outcome<Vec<String>>)
    requires
        pos <= src@.len(),
    ensures
        agrees(r, spec_sort_cols(src@, pos as int)),
        within(r, pos, src@.len()),
        r matches Err(e) ==> e.wf(),
{
    match tag(src, pos, "by") {
        Ok((_, n)) => var_list(src, n),
        Err(_) => var_list(src, pos),
    }
}

/// The rule [`spec_sort`], applied at `pos`.
pub fn sort(src: &Source, pos: usize) -> (r: Outcome<Operator>)
    requires
        pos <= src@.len(),
    ensures
        agrees(r, spec_sort(src@, pos as int)),
        within(r, pos, src@.len()),
        r matches Err(e) ==> e.wf(),
{
    let (_, n) = ws_tag(src, pos, "sort")?;
    let j = skip(src, n, CharClass::MultiSpace);
    let (sort_cols, a) = match sort_cols(src, j) {
        Ok((cols, a)) => (cols, a),
        Err(ParseError::Error { .. }) => {
            let none: Vec<String> = Vec::new();
            proof {
                lemma_none(none);
            }
            (none, j)
        },
        Err(e) => {
            return Err(e);
        },
    };
    let k = skip(src, a, CharClass::MultiSpace);
    let (direction, b) = match sort_mode(src, k) {
        Ok((mode, b)) => (mode, b),
        Err(_) => (SortMode::Ascending, k),
    };
    Ok((Operator::Sort(SortOperator { sort_cols, direction }), skip(src, b, CharClass::MultiSpace)))
}

} // verus!
