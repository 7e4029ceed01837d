//! Lists of items with a separator between them.

use vstd::prelude::*;
use crate::errors::ParseError;
use crate::lexical::Parsed;

verus! {

/// The rest of a list whose items so far are `acc` and end at `i`: as long
/// as a separator and an item follow, the item joins the list. The list
/// ends before a separator that nothing follows, and before a separator or
/// an item that takes no text. A failure of the separator or of an item is
/// the failure of the list.
#[verifier::opaque]
pub open spec fn list_rest<T>(
    s: Seq<char>,
    i: int,
    acc: Seq<T>,
    sep: spec_fn(int) -> Parsed<()>,
    item: spec_fn(int) -> Parsed<T>,
) -> Parsed<Seq<T>>
    decreases s.len() - i,
{
    match sep(i) {
        Err(ParseError::Error { .. }) => Ok((acc, i)),
        Err(e) => Err(e),
        Ok((_, after_sep)) => if after_sep <= i {
            Ok((acc, i))
        } else {
            match item(after_sep) {
                Err(ParseError::Error { .. }) => Ok((acc, i)),
                Err(e) => Err(e),
                Ok((v, next)) => if next <= after_sep || next > s.len() {
                    Ok((acc, i))
                } else {
                    list_rest(s, next, acc.push(v), sep, item)
                },
            }
        }
    }
}

/// The list ends at `i` where no separator with an item behind it follows.
pub proof fn lemma_list_ends<T>(
    s: Seq<char>,
    i: int,
    acc: Seq<T>,
    sep: spec_fn(int) -> Parsed<()>,
    item: spec_fn(int) -> Parsed<T>,
)
    requires
        match sep(i) {
            Err(e) => !e.is_fatal(),
            Ok((_, after_sep)) => after_sep <= i || match item(after_sep) {
                Err(e) => !e.is_fatal(),
                Ok((_, next)) => next <= after_sep || next > s.len(),
            },
        },
    ensures
        list_rest(s, i, acc, sep, item) == Ok::<(Seq<T>, int), ParseError>((acc, i)),
{
    reveal(list_rest);
}

/// The list fails where its separator or the item behind it fails.
pub proof fn lemma_list_fails<T>(
    s: Seq<char>,
    i: int,
    acc: Seq<T>,
    sep: spec_fn(int) -> Parsed<()>,
    item: spec_fn(int) -> Parsed<T>,
    e: ParseError,
)
    requires
        e.is_fatal(),
        match sep(i) {
            Err(f) => f == e,
            Ok((_, after_sep)) => after_sep > i && item(after_sep) == Err::<(T, int), ParseError>(
                e,
            ),
        },
    ensures
        list_rest(s, i, acc, sep, item) == Err::<(Seq<T>, int), ParseError>(e),
{
    reveal(list_rest);
}

/// The list takes the item behind a separator and goes on after it.
pub proof fn lemma_list_grows<T>(
    s: Seq<char>,
    i: int,
    acc: Seq<T>,
    sep: spec_fn(int) -> Parsed<()>,
    item: spec_fn(int) -> Parsed<T>,
    v: T,
    next: int,
)
    requires
        sep(i) matches Ok((_, after_sep)) && i < after_sep < next <= s.len() && item(after_sep)
            == Ok::<(T, int), ParseError>((v, next)),
    ensures
        list_rest(s, i, acc, sep, item) == list_rest(s, next, acc.push(v), sep, item),
{
    reveal(list_rest);
}

/// A list of one or more items.
pub open spec fn list1<T>(
    s: Seq<char>,
    i: int,
    sep: spec_fn(int) -> Parsed<()>,
    item: spec_fn(int) -> Parsed<T>,
) -> Parsed<Seq<T>> {
    match item(i) {
        Err(e) => Err(e),
        Ok((v, next)) => if next <= i || next > s.len() {
            Err(ParseError::Error { at: crate::position::mark(s, i) })
        } else {
            list_rest(s, next, seq![v], sep, item)
        },
    }
}

/// A list of no, one or more items.
pub open spec fn list0<T>(
    s: Seq<char>,
    i: int,
    sep: spec_fn(int) -> Parsed<()>,
    item: spec_fn(int) -> Parsed<T>,
) -> Parsed<Seq<T>> {
    match item(i) {
        Err(ParseError::Error { .. }) => Ok((Seq::empty(), i)),
        _ => list1(s, i, sep, item),
    }
}

/// What holds of the items so far and of every item that the rule for an
/// item can give, holds of all items of the list. The list ends in the
/// text, at or after the index where it started.
pub proof fn lemma_list_rest_all<T>(
    s: Seq<char>,
    i: int,
    acc: Seq<T>,
    sep: spec_fn(int) -> Parsed<()>,
    item: spec_fn(int) -> Parsed<T>,
    holds: spec_fn(T) -> bool,
)
    requires
        0 <= i <= s.len(),
        forall|k: int| 0 <= k < acc.len() ==> holds(#[trigger] acc[k]),
        forall|j: int|
            0 <= j <= s.len() ==> (#[trigger] item(j) matches Ok((v, _)) ==> holds(v)),
    ensures
        list_rest(s, i, acc, sep, item) matches Ok((all, n)) ==> i <= n <= s.len() && forall|
            k: int,
        |
            0 <= k < all.len() ==> holds(#[trigger] all[k]),
    decreases s.len() - i,
{
    reveal(list_rest);
    if let Ok((_, after_sep)) = sep(i) {
        if after_sep > i {
            if let Ok((v, next)) = item(after_sep) {
                if after_sep < next <= s.len() {
                    assert forall|k: int| 0 <= k < acc.push(v).len() implies holds(
                        #[trigger] acc.push(v)[k],
                    ) by {
                        if k < acc.len() {
                            assert(acc.push(v)[k] == acc[k]);
                        }
                    }
                    lemma_list_rest_all(s, next, acc.push(v), sep, item, holds);
                }
            }
        }
    }
}

/// What holds of every item that the rule for an item can give, holds of
/// all items of the list. The list ends in the text, after the index where
/// it started.
pub proof fn lemma_list1_all<T>(
    s: Seq<char>,
    i: int,
    sep: spec_fn(int) -> Parsed<()>,
    item: spec_fn(int) -> Parsed<T>,
    holds: spec_fn(T) -> bool,
)
    requires
        0 <= i <= s.len(),
        forall|j: int|
            0 <= j <= s.len() ==> (#[trigger] item(j) matches Ok((v, _)) ==> holds(v)),
    ensures
        list1(s, i, sep, item) matches Ok((all, n)) ==> i < n <= s.len() && forall|k: int|
            0 <= k < all.len() ==> holds(#[trigger] all[k]),
{
    if let Ok((v, next)) = item(i) {
        if i < next <= s.len() {
            lemma_list_rest_all(s, next, seq![v], sep, item, holds);
        }
    }
}

/// The values of a vector that grew by one item.
pub proof fn lemma_pushed<T: DeepView>(before: Vec<T>, after: Vec<T>, v: T)
    requires
        after@ == before@.push(v),
    ensures
        after.deep_view() == before.deep_view().push(v.deep_view()),
{
    assert(after.deep_view() =~= before.deep_view().push(v.deep_view()));
}

/// The values of a vector of one item.
pub proof fn lemma_single<T: DeepView>(one: Vec<T>, v: T)
    requires
        one@ == seq![v],
    ensures
        one.deep_view() == seq![v.deep_view()],
{
    assert(one.deep_view() =~= seq![v.deep_view()]);
}

/// The values of an empty vector.
pub proof fn lemma_none<T: DeepView>(none: Vec<T>)
    requires
        none@.len() == 0,
    ensures
        none.deep_view() == Seq::<T::V>::empty(),
{
    assert(none.deep_view() =~= Seq::<T::V>::empty());
}

} // verus!
