//! The check that the next word is the name of an operator, made before an
//! operator is parsed: a word that is no such name fails the whole parse
//! with an error that names the word's place, so that no other rule is
//! tried on it.

use vstd::prelude::*;
use crate::chars::{CharClass, is_digit_char, spec_is_digit_char, spec_is_ident, is_ident};
use crate::errors::{ParseError, SyntaxErrors};
use crate::lexical::{
    Outcome, Parsed, agrees, has_tag, miss, or_else, run_end, skip, sp, tag, within,
};
use crate::position::{lemma_byte_offset_monotonic, mark};
use crate::source::Source;

verus! {

/// The names of the aggregate functions and of `sort`. Where one name
/// starts with another, the longer one stands first.
pub open spec fn spec_valid_aggregates() -> Seq<Seq<char>> {
    seq!["count_distinct"@, "count"@, "average"@, "avg"@, "sum"@, "sort"@]
}

/// The names of the inline operators.
pub open spec fn spec_valid_inline() -> Seq<Seq<char>> {
    seq!["parse"@, "limit"@, "json"@, "total"@, "fields"@, "where"@]
}

/// The names of all operators: the inline ones, then the aggregate ones.
pub open spec fn spec_valid_operators() -> Seq<Seq<char>> {
    spec_valid_inline() + spec_valid_aggregates()
}

/// The texts of a list of words.
pub open spec fn words(choices: Seq<&'static str>) -> Seq<Seq<char>> {
    Seq::new(choices.len(), |k: int| choices[k]@)
}

/// The names of the aggregate functions and of `sort`. Where one name
/// starts with another, the longer one stands first.
pub const VALID_AGGREGATES: [&'static str; 6] = [
    "count_distinct",
    "count",
    "average",
    "avg",
    "sum",
    "sort",
];

/// The names of the inline operators.
pub const VALID_INLINE: [&'static str; 6] = ["parse", "limit", "json", "total", "fields", "where"];

/// The names of all operators: the inline ones, then the aggregate ones.
pub const VALID_OPERATORS: [&'static str; 12] = [
    "parse",
    "limit",
    "json",
    "total",
    "fields",
    "where",
    "count_distinct",
    "count",
    "average",
    "avg",
    "sum",
    "sort",
];

/// The first of the words that stands at `i`.
pub open spec fn spec_alternative(s: Seq<char>, i: int, choices: Seq<Seq<char>>) -> Parsed<()>
    decreases choices.len(),
{
    if choices.len() == 0 {
        miss(s, i)
    } else if has_tag(s, i, choices[0]) {
        Ok(((), i + choices[0].len()))
    } else {
        spec_alternative(s, i, choices.drop_first())
    }
}

/// Where one of the words stands at `i`, the first of them in the list is
/// taken. Where none does, there is no match.
pub proof fn lemma_alternative_first(s: Seq<char>, i: int, choices: Seq<Seq<char>>)
    ensures
        match spec_alternative(s, i, choices) {
            Ok((_, n)) => exists|k: int|
                {
                    &&& 0 <= k < choices.len()
                    &&& #[trigger] has_tag(s, i, choices[k])
                    &&& n == i + choices[k].len()
                    &&& forall|j: int| 0 <= j < k ==> !#[trigger] has_tag(s, i, choices[j])
                },
            Err(e) => e == (ParseError::Error { at: mark(s, i) }) && forall|k: int|
                0 <= k < choices.len() ==> !#[trigger] has_tag(s, i, choices[k]),
        },
    decreases choices.len(),
{
    if choices.len() > 0 && !has_tag(s, i, choices[0]) {
        let rest = choices.drop_first();
        lemma_alternative_first(s, i, rest);
        match spec_alternative(s, i, rest) {
            Ok((_, n)) => {
                let k = choose|k: int|
                    {
                        &&& 0 <= k < rest.len()
                        &&& #[trigger] has_tag(s, i, rest[k])
                        &&& n == i + rest[k].len()
                        &&& forall|j: int| 0 <= j < k ==> !#[trigger] has_tag(s, i, rest[j])
                    };
                assert(rest[k] == choices[k + 1]);
                assert forall|j: int| 0 <= j < k + 1 implies !#[trigger] has_tag(
                    s,
                    i,
                    choices[j],
                ) by {
                    if j > 0 {
                        assert(choices[j] == rest[j - 1]);
                    }
                }
                assert(has_tag(s, i, choices[k + 1]));
            },
            Err(_) => {
                assert forall|k: int| 0 <= k < choices.len() implies !#[trigger] has_tag(
                    s,
                    i,
                    choices[k],
                ) by {
                    if k > 0 {
                        assert(choices[k] == rest[k - 1]);
                    }
                }
            },
        }
    } else if choices.len() > 0 {
        assert(has_tag(s, i, choices[0]));
    }
}

/// Matches the first of the words of `alternatives` that stands at `pos`.
pub fn alternative(src: &Source, pos: usize, alternatives: &[&'static str]) -> (r: Outcome<()>)
    requires
        pos <= src@.len(),
    ensures
        agrees(r, spec_alternative(src@, pos as int, words(alternatives@))),
        within(r, pos, src@.len()),
        r matches Err(e) ==> e.wf(),
{
    let mut k: usize = 0;
    proof {
        assert(words(alternatives@).skip(0) =~= words(alternatives@));
    }
    while k < alternatives.len()
        invariant
            k <= alternatives@.len(),
            pos <= src@.len(),
            spec_alternative(src@, pos as int, words(alternatives@)) == spec_alternative(
                src@,
                pos as int,
                words(alternatives@).skip(k as int),
            ),
        decreases alternatives@.len() - k,
    {
        let ghost rest = words(alternatives@).skip(k as int);
        proof {
            assert(rest[0] == alternatives@[k as int]@);
            assert(rest.drop_first() =~= words(alternatives@).skip(k + 1));
        }
        match tag(src, pos, alternatives[k]) {
            Ok(done) => {
                return Ok(done);
            },
            Err(_) => {},
        }
        k = k + 1;
    }
    proof {
        assert(words(alternatives@).skip(k as int).len() == 0);
    }
    Err(ParseError::Error { at: src.position(pos) })
}

/// The index after the word that opens a percentile at `i`: `pct`,
/// `percentile` or `p`, the first of them that stands there.
pub open spec fn percentile_word_end(s: Seq<char>, i: int) -> Option<int> {
    if has_tag(s, i, "pct"@) {
        Some(i + "pct"@.len())
    } else if has_tag(s, i, "percentile"@) {
        Some(i + "percentile"@.len())
    } else if has_tag(s, i, "p"@) {
        Some(i + "p"@.len())
    } else {
        None
    }
}

/// A percentile function's name: `pct`, `percentile` or `p`, and two
/// decimal digits. Its value is the two digits.
pub open spec fn spec_pct_fn(s: Seq<char>, i: int) -> Parsed<Seq<char>> {
    match percentile_word_end(s, i) {
        None => miss(s, i),
        Some(a) => if a + 2 <= s.len() && spec_is_digit_char(s[a]) && spec_is_digit_char(
            s[a + 1],
        ) {
            Ok((s.subrange(a, a + 2), a + 2))
        } else {
            miss(s, a)
        },
    }
}

/// The rule [`spec_pct_fn`], applied at `pos`.
pub fn pct_fn(src: &Source, pos: usize) -> (r: Outcome<String>)
    requires
        pos <= src@.len(),
    ensures
        agrees(r, spec_pct_fn(src@, pos as int)),
        within(r, pos, src@.len()),
        r matches Err(e) ==> e.wf(),
        r matches Ok((_, n)) ==> pos + 2 <= n && spec_is_digit_char(src@[n - 2])
            && spec_is_digit_char(src@[n - 1]),
        r matches Ok((digits, n)) ==> digits@ == src@.subrange(n - 2, n as int),
        r is Err ==> !r->Err_0.is_fatal(),
{
    let a = if let Ok((_, n)) = tag(src, pos, "pct") {
        n
    } else if let Ok((_, n)) = tag(src, pos, "percentile") {
        n
    } else if let Ok((_, n)) = tag(src, pos, "p") {
        n
    } else {
        return Err(ParseError::Error { at: src.position(pos) });
    };
    let len = src.len();
    if len - a >= 2 && is_digit_char(src.char_at(a)) && is_digit_char(src.char_at(a + 1)) {
        Ok((src.slice(a, a + 2), a + 2))
    } else {
        Err(ParseError::Error { at: src.position(a) })
    }
}

/// A name ends at `n`: no character of an identifier stands there.
pub open spec fn ends_word(s: Seq<char>, n: int) -> bool {
    !(0 <= n < s.len() && spec_is_ident(s[n]))
}

/// A percentile function's name at `i`, without its value.
pub open spec fn spec_pct_name(s: Seq<char>, i: int) -> Parsed<()> {
    match spec_pct_fn(s, i) {
        Ok((_, n)) => Ok(((), n)),
        Err(e) => Err(e),
    }
}

/// After blanks, a percentile function's name or the first of the
/// words of `choices` that stands there, with the end of a word behind it.
/// Anything else is a failure of the kind `kind` that spans the characters
/// of an identifier that stand there.
pub open spec fn spec_did_you_mean(
    s: Seq<char>,
    i: int,
    choices: Seq<Seq<char>>,
    kind: SyntaxErrors,
) -> Parsed<()> {
    let j = sp(s, i);
    match or_else(spec_pct_name(s, j), spec_alternative(s, j, choices)) {
        Ok((_, n)) if ends_word(s, n) => Ok(((), n)),
        _ => Err(
            ParseError::Failure {
                kind,
                start: mark(s, j),
                end: mark(s, run_end(s, j, CharClass::Ident)),
            },
        ),
    }
}

/// What passes the check is a percentile function's name or a word of the
/// list, with the end of a word behind it. Anything else is a failure of
/// the given kind, and no mismatch.
pub proof fn lemma_did_you_mean_names(
    s: Seq<char>,
    i: int,
    choices: Seq<Seq<char>>,
    kind: SyntaxErrors,
)
    ensures
        match spec_did_you_mean(s, i, choices, kind) {
            Ok((_, n)) => {
                &&& ends_word(s, n)
                &&& spec_pct_name(s, sp(s, i)) == Ok::<((), int), ParseError>(((), n))
                    || exists|k: int|
                    0 <= k < choices.len() && #[trigger] has_tag(s, sp(s, i), choices[k]) && n
                        == sp(s, i) + choices[k].len()
            },
            Err(e) => e == (ParseError::Failure {
                kind,
                start: mark(s, sp(s, i)),
                end: mark(s, run_end(s, sp(s, i), CharClass::Ident)),
            }),
        },
{
    lemma_alternative_first(s, sp(s, i), choices);
}

/// Every character of every word of the list is a character of an
/// identifier, and every word has two characters at least.
pub open spec fn words_of_idents(choices: Seq<Seq<char>>) -> bool {
    forall|k: int, m: int|
        0 <= k < choices.len() ==> choices[k].len() >= 2 && (0 <= m < choices[k].len()
            ==> spec_is_ident(#[trigger] choices[k][m]))
}

/// No word of the list is the start of a longer word that stands later in
/// the list.
pub open spec fn longest_first(choices: Seq<Seq<char>>) -> bool {
    forall|k: int, l: int|
        0 <= k < l < choices.len() && choices[k].len() < choices[l].len() ==> #[trigger] choices[l].take(
            choices[k].len() as int,
        ) != #[trigger] choices[k]
}

/// No word of the list starts as a percentile function's name does: with
/// `p` and a digit, with `pc` or with `pe`.
pub open spec fn no_percentile(choices: Seq<Seq<char>>) -> bool {
    forall|k: int|
        0 <= k < choices.len() ==> (#[trigger] choices[k])[0] != 'p' || (choices[k][1] != 'c'
            && choices[k][1] != 'e' && !spec_is_digit_char(choices[k][1]))
}

/// A word of such a list that stands at the place of the check, with the
/// end of a word behind it, passes the check.
pub proof fn lemma_did_you_mean_known(
    s: Seq<char>,
    i: int,
    choices: Seq<Seq<char>>,
    kind: SyntaxErrors,
    k: int,
)
    requires
        words_of_idents(choices),
        longest_first(choices),
        no_percentile(choices),
        0 <= k < choices.len(),
        has_tag(s, sp(s, i), choices[k]),
        ends_word(s, sp(s, i) + choices[k].len()),
    ensures
        spec_did_you_mean(s, i, choices, kind) == Ok::<((), int), ParseError>(
            ((), sp(s, i) + choices[k].len()),
        ),
{
    let j = sp(s, i);
    let word = choices[k];
    reveal_strlit("pct");
    reveal_strlit("percentile");
    reveal_strlit("p");
    assert(word.len() >= 2 && spec_is_ident(word[0]));
    assert(s.subrange(j, j + word.len())[0] == s[j]);
    assert(s.subrange(j, j + word.len())[1] == s[j + 1]);
    if has_tag(s, j, "pct"@) {
        assert(s.subrange(j, j + 3)[0] == 'p' && s.subrange(j, j + 3)[1] == 'c');
    }
    if has_tag(s, j, "percentile"@) {
        assert(s.subrange(j, j + 10)[0] == 'p' && s.subrange(j, j + 10)[1] == 'e');
    }
    if has_tag(s, j, "p"@) {
        assert(s.subrange(j, j + 1)[0] == 'p');
    }
    assert(spec_pct_name(s, j) is Err);
    lemma_alternative_first(s, j, choices);
    let n = spec_alternative(s, j, choices)->Ok_0.1;
    let first = choose|f: int|
        {
            &&& 0 <= f < choices.len()
            &&& #[trigger] has_tag(s, j, choices[f])
            &&& n == j + choices[f].len()
            &&& forall|e: int| 0 <= e < f ==> !#[trigger] has_tag(s, j, choices[e])
        };
    if first < k {
        let short = choices[first];
        if short.len() < word.len() {
            assert(word.take(short.len() as int) =~= s.subrange(j, j + short.len()));
        } else if short.len() > word.len() {
            assert(spec_is_ident(short[word.len() as int]));
            assert(s.subrange(j, j + short.len())[word.len() as int] == s[j + word.len()]);
        }
    }
}

/// The names of the aggregate functions are such a list.
pub proof fn lemma_valid_aggregates_in_order()
    ensures
        words_of_idents(spec_valid_aggregates()),
        longest_first(spec_valid_aggregates()),
        no_percentile(spec_valid_aggregates()),
{
    reveal_strlit("count_distinct");
    reveal_strlit("count");
    reveal_strlit("average");
    reveal_strlit("avg");
    reveal_strlit("sum");
    reveal_strlit("sort");
    let names = spec_valid_aggregates();
    assert forall|k: int, l: int|
        0 <= k < l < names.len() && names[k].len() < names[l].len() implies #[trigger] names[l].take(
        names[k].len() as int,
    ) != #[trigger] names[k] by {
        let head = names[l].take(names[k].len() as int);
        assert(head[0] == names[l][0] && head[1] == names[l][1] && head[2] == names[l][2]);
    }
}

/// The names of all operators are such a list.
pub proof fn lemma_valid_operators_in_order()
    ensures
        words_of_idents(spec_valid_operators()),
        longest_first(spec_valid_operators()),
        no_percentile(spec_valid_operators()),
{
    reveal_strlit("parse");
    reveal_strlit("limit");
    reveal_strlit("json");
    reveal_strlit("total");
    reveal_strlit("fields");
    reveal_strlit("where");
    reveal_strlit("count_distinct");
    reveal_strlit("count");
    reveal_strlit("average");
    reveal_strlit("avg");
    reveal_strlit("sum");
    reveal_strlit("sort");
    let names = spec_valid_operators();
    assert forall|k: int, l: int|
        0 <= k < l < names.len() && names[k].len() < names[l].len() implies #[trigger] names[l].take(
        names[k].len() as int,
    ) != #[trigger] names[k] by {
        let head = names[l].take(names[k].len() as int);
        assert(head[0] == names[l][0] && head[1] == names[l][1] && head[2] == names[l][2]);
    }
}

/// A percentile function's name with the end of a word behind it passes
/// the check, whatever the list holds.
pub proof fn lemma_percentile_names_pass(
    s: Seq<char>,
    i: int,
    choices: Seq<Seq<char>>,
    kind: SyntaxErrors,
)
    requires
        spec_pct_name(s, sp(s, i)) matches Ok((_, n)) && ends_word(s, n),
    ensures
        spec_did_you_mean(s, i, choices, kind) == spec_pct_name(s, sp(s, i)),
{
}

/// The name of an operator that stands as a word where an operator must
/// stand passes the check before an operator.
pub proof fn lemma_operator_names_pass(s: Seq<char>, i: int, k: int)
    requires
        0 <= k < spec_valid_operators().len(),
        has_tag(s, sp(s, i), spec_valid_operators()[k]),
        ends_word(s, sp(s, i) + spec_valid_operators()[k].len()),
    ensures
        spec_did_you_mean_operator(s, i) is Ok,
{
    lemma_valid_operators_in_order();
    lemma_did_you_mean_known(s, i, spec_valid_operators(), SyntaxErrors::NotAnOperator, k);
}

/// The name of an aggregate function that stands as a word where an
/// aggregate function must stand passes the check before an aggregate
/// function.
pub proof fn lemma_aggregate_names_pass(s: Seq<char>, i: int, k: int)
    requires
        0 <= k < spec_valid_aggregates().len(),
        has_tag(s, sp(s, i), spec_valid_aggregates()[k]),
        ends_word(s, sp(s, i) + spec_valid_aggregates()[k].len()),
    ensures
        spec_did_you_mean_aggregate(s, i) is Ok,
{
    lemma_valid_aggregates_in_order();
    lemma_did_you_mean_known(
        s,
        i,
        spec_valid_aggregates(),
        SyntaxErrors::NotAnAggregateOperator,
        k,
    );
}

/// The rule [`spec_did_you_mean`], applied at `pos`.
pub fn did_you_mean(
    src: &Source,
    pos: usize,
    choices: &[&'static str],
    err: SyntaxErrors,
) -> (r: Outcome<()>)
    requires
        pos <= src@.len(),
    ensures
        agrees(r, spec_did_you_mean(src@, pos as int, words(choices@), err)),
        within(r, pos, src@.len()),
        r matches Err(e) ==> e.wf(),
        r is Err ==> r->Err_0.is_fatal(),
{
    let j = skip(src, pos, CharClass::MultiSpace);
    let found = match pct_fn(src, j) {
        Ok((_, n)) => Ok(((), n)),
        Err(_) => alternative(src, j, choices),
    };
    match found {
        Ok((_, n)) => {
            if !(n < src.len() && is_ident(src.char_at(n))) {
                return Ok(((), n));
            }
        },
        Err(_) => {},
    }
    let end = skip(src, j, CharClass::Ident);
    proof {
        lemma_byte_offset_monotonic(src@, j as int, end as int);
    }
    Err(ParseError::Failure { kind: err, start: src.position(j), end: src.position(end) })
}

/// The check before an operator.
pub open spec fn spec_did_you_mean_operator(s: Seq<char>, i: int) -> Parsed<()> {
    spec_did_you_mean(s, i, spec_valid_operators(), SyntaxErrors::NotAnOperator)
}

/// The check before an aggregate function.
pub open spec fn spec_did_you_mean_aggregate(s: Seq<char>, i: int) -> Parsed<()> {
    spec_did_you_mean(s, i, spec_valid_aggregates(), SyntaxErrors::NotAnAggregateOperator)
}

/// The rule [`spec_did_you_mean_operator`], applied at `pos`.
pub fn did_you_mean_operator(src: &Source, pos: usize) -> (r: Outcome<()>)
    requires
        pos <= src@.len(),
    ensures
        agrees(r, spec_did_you_mean_operator(src@, pos as int)),
        within(r, pos, src@.len()),
        r matches Err(e) ==> e.wf(),
        r is Err ==> r->Err_0.is_fatal(),
{
    let choices = VALID_OPERATORS;
    proof {
        assert(words(choices@) =~= spec_valid_operators());
    }
    did_you_mean(src, pos, choices.as_slice(), SyntaxErrors::NotAnOperator)
}

/// The rule [`spec_did_you_mean_aggregate`], applied at `pos`.
pub fn did_you_mean_aggregate(src: &Source, pos: usize) -> (r: Outcome<()>)
    requires
        pos <= src@.len(),
    ensures
        agrees(r, spec_did_you_mean_aggregate(src@, pos as int)),
        within(r, pos, src@.len()),
        r matches Err(e) ==> e.wf(),
        r is Err ==> r->Err_0.is_fatal(),
{
    let choices = VALID_AGGREGATES;
    proof {
        assert(words(choices@) =~= spec_valid_aggregates());
    }
    did_you_mean(src, pos, choices.as_slice(), SyntaxErrors::NotAnAggregateOperator)
}

} // verus!
