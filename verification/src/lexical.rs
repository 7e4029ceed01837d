//! The lexical rules: runs of characters, fixed words, identifiers, search
//! keywords, quoted strings and numbers.
//!
//! A rule is applied to the text at a character index. Its meaning is a
//! spec function that gives the value with the index after it, or the
//! error; the executable rule of the same name returns exactly that.

use vstd::prelude::*;
use crate::ast::{NumberLiteral, NumberLiteralView};
use crate::chars::{CharClass, spec_starts_ident, starts_ident};
use crate::errors::{ParseError, SyntaxErrors};
use crate::position::{Positioned, lemma_byte_offset_monotonic, mark};
use crate::source::Source;

verus! {

/// What a rule means at an index: the value and the index after it, or
/// the error.
pub type Parsed<T> = Result<(T, int), ParseError>;

/// What an executable rule returns.
pub type Outcome<T> = Result<(T, usize), ParseError>;

/// The executable result `r` is what the rule means, `m`.
pub open spec fn agrees<T: DeepView>(r: Outcome<T>, m: Parsed<T::V>) -> bool {
    match (r, m) {
        (Ok((v, n)), Ok((w, k))) => v.deep_view() == w && n as int == k,
        (Err(e), Err(f)) => e == f,
        _ => false,
    }
}

/// A result that is a value ends between `pos` and the end of the text.
pub open spec fn within<T>(r: Outcome<T>, pos: usize, len: nat) -> bool {
    r matches Ok((_, n)) ==> pos <= n <= len
}

/// The rule does not match at `i`.
pub open spec fn miss<T>(s: Seq<char>, i: int) -> Parsed<T> {
    Err(ParseError::Error { at: mark(s, i) })
}

/// Ordered choice: the second rule is tried where the first does not match.
pub open spec fn or_else<T>(first: Parsed<T>, second: Parsed<T>) -> Parsed<T> {
    match first {
        Err(ParseError::Error { .. }) => second,
        _ => first,
    }
}

/// An optional rule: where it does not match, nothing is taken at `i`.
pub open spec fn optional<T>(r: Parsed<T>, i: int) -> Parsed<Option<T>> {
    match r {
        Ok((v, n)) => Ok((Some(v), n)),
        Err(ParseError::Error { .. }) => Ok((None, i)),
        Err(e) => Err(e),
    }
}

/// The index after the longest run of characters of `class` that starts
/// at `i`.
pub open spec fn run_end(s: Seq<char>, i: int, class: CharClass) -> int
    decreases s.len() - i,
{
    if 0 <= i < s.len() && class.holds(s[i]) {
        run_end(s, i + 1, class)
    } else {
        i
    }
}

/// A run ends in the text, at or after the index where it starts. Every
/// character of the run is of the class, and the character behind the
/// run is not.
pub proof fn lemma_run_end(s: Seq<char>, i: int, class: CharClass)
    requires
        0 <= i <= s.len(),
    ensures
        i <= run_end(s, i, class) <= s.len(),
        forall|k: int| i <= k < run_end(s, i, class) ==> class.holds(#[trigger] s[k]),
        run_end(s, i, class) < s.len() ==> !class.holds(s[run_end(s, i, class)]),
    decreases s.len() - i,
{
    if i < s.len() && class.holds(s[i]) {
        lemma_run_end(s, i + 1, class);
    }
}

/// Skipping blanks: spaces, tabs, carriage returns and line feeds.
pub open spec fn sp(s: Seq<char>, i: int) -> int {
    run_end(s, i, CharClass::MultiSpace)
}

/// The text holds the word `t` at `i`.
pub open spec fn has_tag(s: Seq<char>, i: int, t: Seq<char>) -> bool {
    0 <= i && i + t.len() <= s.len() && s.subrange(i, i + t.len()) == t
}

/// A fixed word.
pub open spec fn spec_tag(s: Seq<char>, i: int, t: Seq<char>) -> Parsed<()> {
    if has_tag(s, i, t) {
        Ok(((), i + t.len()))
    } else {
        miss(s, i)
    }
}

/// The text holds the character `c` at `i`.
pub open spec fn has_char(s: Seq<char>, i: int, c: char) -> bool {
    0 <= i < s.len() && s[i] == c
}

/// The index after the longest run of characters of `class` from `pos`.
pub fn skip(src: &Source, pos: usize, class: CharClass) -> (end: usize)
    requires
        pos <= src@.len(),
    ensures
        end == run_end(src@, pos as int, class),
        pos <= end <= src@.len() <= usize::MAX,
{
    let n = src.len();
    let mut i: usize = pos;
    while i < n && class.contains(src.char_at(i))
        invariant
            pos <= i <= n,
            n == src@.len(),
            run_end(src@, pos as int, class) == run_end(src@, i as int, class),
        decreases n - i,
    {
        i = i + 1;
    }
    i
}

/// Whether the text holds the character `c` at `pos`.
pub fn at_char(src: &Source, pos: usize, c: char) -> (r: bool)
    requires
        pos <= src@.len(),
    ensures
        r == has_char(src@, pos as int, c),
        src@.len() <= usize::MAX,
{
    pos < src.len() && src.char_at(pos) == c
}

/// Matches the fixed word `word` at `pos`.
pub fn tag(src: &Source, pos: usize, word: &str) -> (r: Outcome<()>)
    requires
        pos <= src@.len(),
    ensures
        agrees(r, spec_tag(src@, pos as int, word@)),
        within(r, pos, src@.len()),
        r matches Err(e) ==> e.wf(),
        r is Err ==> !r->Err_0.is_fatal(),
{
    let n = src.len();
    let mut i: usize = pos;
    for c in it: word.chars()
        invariant
            it.seq() == word@,
            n == src@.len(),
            i == pos + it.index(),
            i <= n,
            src@.subrange(pos as int, i as int) == word@.take(it.index()),
    {
        if i >= n || src.char_at(i) != c {
            proof {
                if has_tag(src@, pos as int, word@) {
                    assert(src@.subrange(pos as int, pos + word@.len())[it.index()]
                        == word@[it.index()]);
                }
            }
            return Err(ParseError::Error { at: src.position(pos) });
        }
        proof {
            assert(src@.subrange(pos as int, i + 1) =~= src@.subrange(pos as int, i as int).push(
                src@[i as int],
            ));
            assert(word@.take(it.index() + 1) =~= word@.take(it.index()).push(c));
        }
        i = i + 1;
    }
    proof {
        assert(word@.take(word@.len() as int) =~= word@);
    }
    Ok(((), i))
}

/// An identifier: a letter or `_`, then letters, digits and `_`.
pub open spec fn spec_ident(s: Seq<char>, i: int) -> Parsed<Seq<char>> {
    if 0 <= i < s.len() && spec_starts_ident(s[i]) {
        Ok((s.subrange(i, run_end(s, i, CharClass::Ident)), run_end(s, i, CharClass::Ident)))
    } else {
        miss(s, i)
    }
}

/// The rule [`spec_ident`], applied at `pos`.
pub fn ident(src: &Source, pos: usize) -> (r: Outcome<String>)
    requires
        pos <= src@.len(),
    ensures
        agrees(r, spec_ident(src@, pos as int)),
        within(r, pos, src@.len()),
        r matches Err(e) ==> e.wf(),
        r matches Ok((_, n)) ==> pos < n,
        r is Err ==> !r->Err_0.is_fatal(),
{
    if pos < src.len() && starts_ident(src.char_at(pos)) {
        let end = skip(src, pos, CharClass::Ident);
        proof {
            lemma_run_end(src@, pos + 1, CharClass::Ident);
        }
        Ok((src.slice(pos, end), end))
    } else {
        Err(ParseError::Error { at: src.position(pos) })
    }
}

/// A bare search keyword: a run of one or more keyword characters.
pub open spec fn spec_keyword(s: Seq<char>, i: int) -> Parsed<Seq<char>> {
    if run_end(s, i, CharClass::Keyword) > i {
        Ok((s.subrange(i, run_end(s, i, CharClass::Keyword)), run_end(s, i, CharClass::Keyword)))
    } else {
        miss(s, i)
    }
}

/// The rule [`spec_keyword`], applied at `pos`.
pub fn keyword(src: &Source, pos: usize) -> (r: Outcome<String>)
    requires
        pos <= src@.len(),
    ensures
        agrees(r, spec_keyword(src@, pos as int)),
        within(r, pos, src@.len()),
        r matches Err(e) ==> e.wf(),
        r matches Ok((_, n)) ==> pos < n,
{
    let end = skip(src, pos, CharClass::Keyword);
    if end > pos {
        Ok((src.slice(pos, end), end))
    } else {
        Err(ParseError::Error { at: src.position(pos) })
    }
}

/// Where the body of a quoted string ends, scanning from `i`: at the first
/// `quote` that no backslash stands before, or at the end of the text where
/// there is none. A backslash takes the character after it with it; one
/// that is the last character of the text leaves the body without an end,
/// as a missing quote does.
pub open spec fn body_end(s: Seq<char>, i: int, quote: char) -> int
    decreases s.len() - i,
{
    if i < 0 || i >= s.len() {
        s.len() as int
    } else if s[i] == quote {
        i
    } else if s[i] == '\\' {
        if i + 1 >= s.len() {
            s.len() as int
        } else {
            body_end(s, i + 2, quote)
        }
    } else {
        body_end(s, i + 1, quote)
    }
}

/// A string between two `quote` characters. Its value is the text between
/// them as written, backslashes included. A string without its closing
/// quote is a failure of the kind `kind`, from the opening quote to the end
/// of the text.
pub open spec fn spec_quoted(s: Seq<char>, i: int, quote: char, kind: SyntaxErrors) -> Parsed<
    Seq<char>,
> {
    if has_char(s, i, quote) {
        if body_end(s, i + 1, quote) < s.len() {
            Ok((s.subrange(i + 1, body_end(s, i + 1, quote)), body_end(s, i + 1, quote) + 1))
        } else {
            Err(
                ParseError::Failure {
                    kind,
                    start: mark(s, i),
                    end: mark(s, body_end(s, i + 1, quote)),
                },
            )
        }
    } else {
        miss(s, i)
    }
}

/// A string in double quotes.
pub open spec fn spec_double_quoted_string(s: Seq<char>, i: int) -> Parsed<Seq<char>> {
    spec_quoted(s, i, '"', SyntaxErrors::UnterminatedDoubleQuotedString)
}

/// A string in single quotes.
pub open spec fn spec_single_quoted_string(s: Seq<char>, i: int) -> Parsed<Seq<char>> {
    spec_quoted(s, i, '\'', SyntaxErrors::UnterminatedSingleQuotedString)
}

/// A string in double or in single quotes.
pub open spec fn spec_quoted_string(s: Seq<char>, i: int) -> Parsed<Seq<char>> {
    or_else(spec_double_quoted_string(s, i), spec_single_quoted_string(s, i))
}

/// The body of a quoted string ends in the text, at or after the index
/// where it starts.
pub proof fn lemma_body_end(s: Seq<char>, i: int, quote: char)
    requires
        0 <= i <= s.len(),
    ensures
        i <= body_end(s, i, quote) <= s.len(),
        body_end(s, i, quote) < s.len() ==> s[body_end(s, i, quote)] == quote,
    decreases s.len() - i,
{
    if i < s.len() && s[i] != quote {
        if s[i] == '\\' {
            if i + 1 < s.len() {
                lemma_body_end(s, i + 2, quote);
            }
        } else {
            lemma_body_end(s, i + 1, quote);
        }
    }
}

/// A quoted string takes its two quotes at least, and stays in the text.
pub proof fn lemma_quoted_string_advances(s: Seq<char>, i: int)
    requires
        0 <= i <= s.len(),
    ensures
        spec_quoted_string(s, i) matches Ok((_, n)) ==> i + 2 <= n <= s.len(),
{
    if i < s.len() {
        lemma_body_end(s, i + 1, '"');
        lemma_body_end(s, i + 1, '\'');
    }
}

/// An identifier takes one character at least, and stays in the text.
pub proof fn lemma_ident_advances(s: Seq<char>, i: int)
    requires
        0 <= i <= s.len(),
    ensures
        spec_ident(s, i) matches Ok((_, n)) ==> i < n <= s.len(),
{
    if i < s.len() {
        lemma_run_end(s, i + 1, CharClass::Ident);
    }
}

/// The rule [`spec_quoted`], applied at `pos`.
fn quoted(src: &Source, pos: usize, quote: char, kind: SyntaxErrors) -> (r: Outcome<String>)
    requires
        pos <= src@.len(),
        quote != '\\',
    ensures
        agrees(r, spec_quoted(src@, pos as int, quote, kind)),
        within(r, pos, src@.len()),
        r matches Err(e) ==> e.wf(),
        r matches Ok((_, n)) ==> pos < n,
{
    if !at_char(src, pos, quote) {
        return Err(ParseError::Error { at: src.position(pos) });
    }
    let n = src.len();
    let mut i: usize = pos + 1;
    while i < n && src.char_at(i) != quote
        invariant
            pos < i <= n,
            n == src@.len(),
            body_end(src@, pos + 1, quote) == body_end(src@, i as int, quote),
        decreases n - i,
    {
        if src.char_at(i) != '\\' {
            i = i + 1;
        } else if i + 1 < n {
            i = i + 2;
        } else {
            i = n;
        }
    }
    if i < n {
        Ok((src.slice(pos + 1, i), i + 1))
    } else {
        proof {
            lemma_byte_offset_monotonic(src@, pos as int, i as int);
        }
        Err(ParseError::Failure { kind, start: src.position(pos), end: src.position(i) })
    }
}

/// The rule [`spec_double_quoted_string`], applied at `pos`.
pub fn double_quoted_string(src: &Source, pos: usize) -> (r: Outcome<String>)
    requires
        pos <= src@.len(),
    ensures
        agrees(r, spec_double_quoted_string(src@, pos as int)),
        within(r, pos, src@.len()),
        r matches Err(e) ==> e.wf(),
        r matches Ok((_, n)) ==> pos < n,
{
    quoted(src, pos, '"', SyntaxErrors::UnterminatedDoubleQuotedString)
}

/// The rule [`spec_single_quoted_string`], applied at `pos`.
pub fn single_quoted_string(src: &Source, pos: usize) -> (r: Outcome<String>)
    requires
        pos <= src@.len(),
    ensures
        agrees(r, spec_single_quoted_string(src@, pos as int)),
        within(r, pos, src@.len()),
        r matches Err(e) ==> e.wf(),
        r matches Ok((_, n)) ==> pos < n,
{
    quoted(src, pos, '\'', SyntaxErrors::UnterminatedSingleQuotedString)
}

/// The rule [`spec_quoted_string`], applied at `pos`.
pub fn quoted_string(src: &Source, pos: usize) -> (r: Outcome<String>)
    requires
        pos <= src@.len(),
    ensures
        agrees(r, spec_quoted_string(src@, pos as int)),
        within(r, pos, src@.len()),
        r matches Err(e) ==> e.wf(),
        r matches Ok((_, n)) ==> pos < n,
{
    match double_quoted_string(src, pos) {
        Err(ParseError::Error { .. }) => single_quoted_string(src, pos),
        other => other,
    }
}

/// A fixed word after blanks.
pub open spec fn spec_ws_tag(s: Seq<char>, i: int, t: Seq<char>) -> Parsed<()> {
    spec_tag(s, sp(s, i), t)
}

/// The rule [`spec_ws_tag`], applied at `pos`.
pub fn ws_tag(src: &Source, pos: usize, word: &str) -> (r: Outcome<()>)
    requires
        pos <= src@.len(),
    ensures
        agrees(r, spec_ws_tag(src@, pos as int, word@)),
        within(r, pos, src@.len()),
        r matches Err(e) ==> e.wf(),
        r is Err ==> !r->Err_0.is_fatal(),
{
    let j = skip(src, pos, CharClass::MultiSpace);
    tag(src, j, word)
}

/// A fixed word and an identifier, with blanks before, between and after
/// them. Its value is the identifier.
pub open spec fn spec_word_ident(s: Seq<char>, i: int, word: Seq<char>) -> Parsed<Seq<char>> {
    match spec_ws_tag(s, i, word) {
        Ok((_, n)) => match spec_ident(s, sp(s, n)) {
            Ok((name, m)) => Ok((name, sp(s, m))),
            Err(e) => Err(e),
        },
        Err(e) => Err(e),
    }
}

/// The rule [`spec_word_ident`], applied at `pos`.
pub fn word_ident(src: &Source, pos: usize, word: &str) -> (r: Outcome<String>)
    requires
        pos <= src@.len(),
    ensures
        agrees(r, spec_word_ident(src@, pos as int, word@)),
        within(r, pos, src@.len()),
        r matches Err(e) ==> e.wf(),
        r is Err ==> !r->Err_0.is_fatal(),
{
    let (_, n) = ws_tag(src, pos, word)?;
    let j = skip(src, n, CharClass::MultiSpace);
    let (name, m) = ident(src, j)?;
    Ok((name, skip(src, m, CharClass::MultiSpace)))
}

/// The value of a rule with the span that it took: from `start` to the
/// index after the value.
pub open spec fn spec_with_pos<T>(s: Seq<char>, start: int, r: Parsed<T>) -> Parsed<
    Positioned<T>,
> {
    match r {
        Ok((v, n)) => Ok(
            (Positioned { start_pos: mark(s, start), end_pos: mark(s, n), value: v }, n),
        ),
        Err(e) => Err(e),
    }
}

/// Attaches to the value of a rule that was applied at `start` the span
/// that it took.
pub fn with_pos<T: DeepView>(src: &Source, start: usize, r: Outcome<T>) -> (out: Outcome<
    Positioned<T>,
>)
    requires
        start <= src@.len(),
        within(r, start, src@.len()),
    ensures
        forall|m: Parsed<T::V>| #[trigger]
            agrees(r, m) ==> agrees(out, spec_with_pos(src@, start as int, m)),
        within(out, start, src@.len()),
        out matches Ok((p, n)) ==> p.wf() && (r matches Ok((v, k)) && k == n && p.value == v),
        out matches Ok((p, n)) ==> p.start_pos == mark(src@, start as int) && p.end_pos == mark(
            src@,
            n as int,
        ),
        out matches Err(e) ==> r == Err::<(T, usize), ParseError>(e),
        r is Ok ==> out is Ok,
{
    match r {
        Ok((v, n)) => {
            proof {
                lemma_byte_offset_monotonic(src@, start as int, n as int);
            }
            Ok(
                (
                    Positioned {
                        start_pos: src.position(start),
                        end_pos: src.position(n),
                        value: v,
                    },
                    n,
                ),
            )
        },
        Err(e) => Err(e),
    }
}

/// The index before the longest run of characters of `class` that ends
/// at `j` and does not reach back beyond `from`.
pub open spec fn run_start(t: Seq<char>, from: int, j: int, class: CharClass) -> int
    decreases j,
{
    if 0 <= from < j <= t.len() && class.holds(t[j - 1]) {
        run_start(t, from, j - 1, class)
    } else {
        j
    }
}

/// The text without the characters of `class` at its start and at its end.
pub open spec fn spec_trim(t: Seq<char>, class: CharClass) -> Seq<char> {
    t.subrange(
        run_end(t, 0, class),
        run_start(t, run_end(t, 0, class), t.len() as int, class),
    )
}

/// The characters from index `from` up to index `to`, without those of
/// `class` at the start and at the end.
pub fn trimmed(src: &Source, from: usize, to: usize, class: CharClass) -> (out: String)
    requires
        from <= to <= src@.len(),
    ensures
        out@ == spec_trim(src@.subrange(from as int, to as int), class),
{
    let ghost t = src@.subrange(from as int, to as int);
    let mut a: usize = from;
    while a < to && class.contains(src.char_at(a))
        invariant
            from <= a <= to <= src@.len(),
            t == src@.subrange(from as int, to as int),
            run_end(t, 0, class) == run_end(t, a - from, class),
        decreases to - a,
    {
        a = a + 1;
    }
    let mut b: usize = to;
    while b > a && class.contains(src.char_at(b - 1))
        invariant
            from <= a <= b <= to <= src@.len(),
            t == src@.subrange(from as int, to as int),
            run_start(t, a - from, to - from, class) == run_start(t, a - from, b - from, class),
        decreases b,
    {
        b = b - 1;
    }
    proof {
        assert(t.subrange(a - from, b - from) =~= src@.subrange(a as int, b as int));
    }
    src.slice(a, b)
}

/// The index after an optional sign at `i`.
pub open spec fn after_sign(s: Seq<char>, i: int) -> int {
    if has_char(s, i, '+') || has_char(s, i, '-') {
        i + 1
    } else {
        i
    }
}

/// The index after the digits of a number that start at `a`: digits with
/// an optional `.` and optional digits behind them, or a `.` and digits.
pub open spec fn mantissa_end(s: Seq<char>, a: int) -> Option<int> {
    let d = run_end(s, a, CharClass::Digit);
    if d > a {
        if has_char(s, d, '.') {
            Some(run_end(s, d + 1, CharClass::Digit))
        } else {
            Some(d)
        }
    } else if has_char(s, a, '.') && run_end(s, a + 1, CharClass::Digit) > a + 1 {
        Some(run_end(s, a + 1, CharClass::Digit))
    } else {
        None
    }
}

/// The index after an optional exponent at `m`: `e` or `E`, an optional
/// sign, and digits. An `e` without digits is left where it stands.
pub open spec fn exponent_end(s: Seq<char>, m: int) -> int {
    if has_char(s, m, 'e') || has_char(s, m, 'E') {
        if run_end(s, after_sign(s, m + 1), CharClass::Digit) > after_sign(s, m + 1) {
            run_end(s, after_sign(s, m + 1), CharClass::Digit)
        } else {
            m
        }
    } else {
        m
    }
}

/// A number: an optional sign, the digits, an optional exponent. Its value
/// is the text as written.
pub open spec fn spec_number_literal(s: Seq<char>, i: int) -> Parsed<NumberLiteralView> {
    match mantissa_end(s, after_sign(s, i)) {
        None => miss(s, i),
        Some(m) => Ok(
            (NumberLiteralView { text: s.subrange(i, exponent_end(s, m)) }, exponent_end(s, m)),
        ),
    }
}

/// The index after an optional sign at `pos`.
fn sign(src: &Source, pos: usize) -> (end: usize)
    requires
        pos <= src@.len(),
    ensures
        end == after_sign(src@, pos as int),
        pos <= end <= src@.len(),
{
    if at_char(src, pos, '+') || at_char(src, pos, '-') {
        pos + 1
    } else {
        pos
    }
}

/// The rule [`spec_number_literal`], applied at `pos`.
pub fn number_literal(src: &Source, pos: usize) -> (r: Outcome<NumberLiteral>)
    requires
        pos <= src@.len(),
    ensures
        agrees(r, spec_number_literal(src@, pos as int)),
        within(r, pos, src@.len()),
        r matches Err(e) ==> e.wf(),
{
    let a = sign(src, pos);
    let d = skip(src, a, CharClass::Digit);
    let m = if d > a {
        if at_char(src, d, '.') {
            skip(src, d + 1, CharClass::Digit)
        } else {
            d
        }
    } else if at_char(src, a, '.') {
        let f = skip(src, a + 1, CharClass::Digit);
        if f > a + 1 {
            f
        } else {
            return Err(ParseError::Error { at: src.position(pos) });
        }
    } else {
        return Err(ParseError::Error { at: src.position(pos) });
    };
    let end = if at_char(src, m, 'e') || at_char(src, m, 'E') {
        let g = sign(src, m + 1);
        let x = skip(src, g, CharClass::Digit);
        if x > g {
            x
        } else {
            m
        }
    } else {
        m
    };
    Ok((NumberLiteral { text: src.slice(pos, end) }, end))
}

} // verus!
