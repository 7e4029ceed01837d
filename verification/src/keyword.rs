//! Search keywords, and the regular expression that a keyword is searched
//! for with.

use vstd::prelude::*;
use vstd::string::StringExecFns;
use crate::lexical::{has_tag, tag};
use crate::source::Source;

verus! {

/// How a keyword string is to be read.
#[derive(Debug, PartialEq, Eq, Clone, Copy)]
pub enum KeywordType {
    /// The keyword string must occur as it is.
    EXACT,
    /// The keyword string can contain wildcards.
    WILDCARD,
}

/// A search term.
#[derive(Debug, PartialEq, Eq, Clone)]
pub struct Keyword(String, KeywordType);

/// The value of a [`Keyword`]: its text and how the text is to be read.
pub struct KeywordView {
    pub text: Seq<char>,
    pub mode: KeywordType,
}

impl DeepView for Keyword {
    type V = KeywordView;

    closed spec fn deep_view(&self) -> KeywordView {
        KeywordView { text: self.0@, mode: self.1 }
    }
}

/// `regex::Regex`, a compiled regular expression. Nothing is known of what
/// is inside one.
#[verifier::external_type_specification]
#[verifier::external_body]
pub struct ExRegex(regex::Regex);

/// The text that a compiled regular expression was made from: what
/// `regex::Regex::as_str` returns for it.
pub uninterp spec fn regex_text(re: regex::Regex) -> Seq<char>;

/// Whether `regex::Regex::new` compiles the pattern: it does where the
/// pattern is well-formed and what it compiles to stays under the limit of
/// the engine.
pub uninterp spec fn regex_accepts(pattern: Seq<char>) -> bool;

/// A character that has a meaning of its own in a regular expression.
pub open spec fn is_meta_character(c: char) -> bool {
    ||| c == '\\'
    ||| c == '.'
    ||| c == '+'
    ||| c == '*'
    ||| c == '?'
    ||| c == '('
    ||| c == ')'
    ||| c == '|'
    ||| c == '['
    ||| c == ']'
    ||| c == '{'
    ||| c == '}'
    ||| c == '^'
    ||| c == '$'
    ||| c == '#'
    ||| c == '&'
    ||| c == '-'
    ||| c == '~'
}

/// The text with a backslash before each of its meta characters.
pub open spec fn escaped(t: Seq<char>) -> Seq<char>
    decreases t.len(),
{
    if t.len() == 0 {
        t
    } else if is_meta_character(t.last()) {
        escaped(t.drop_last()).push('\\').push(t.last())
    } else {
        escaped(t.drop_last()).push(t.last())
    }
}

/// `regex::escape` copies the text and puts a backslash before each
/// character that `regex_syntax::is_meta_character` holds.
#[verifier::external_body]
fn escape(text: &str) -> (out: String)
    ensures
        out@ == escaped(text@),
{
    regex::escape(text)
}

/// `regex::Regex::new` compiles a pattern, or refuses it. Which of the two
/// it does rests on the pattern alone. The compiled expression keeps the
/// text of the pattern.
#[verifier::external_body]
fn compile(pattern: &str) -> (r: Option<regex::Regex>)
    ensures
        r is Some <==> regex_accepts(pattern@),
        r matches Some(re) ==> regex_text(re) == pattern@,
{
    regex::Regex::new(pattern).ok()
}

/// The text from index `i` on, with `to` in place of each `from`. The text
/// is read from left to right, and a `from` that was replaced is not read
/// again.
pub open spec fn replaced_from(t: Seq<char>, i: int, from: Seq<char>, to: Seq<char>) -> Seq<char>
    decreases t.len() - i,
{
    if i < 0 || i >= t.len() {
        Seq::empty()
    } else if from.len() > 0 && has_tag(t, i, from) {
        to + replaced_from(t, i + from.len(), from, to)
    } else {
        seq![t[i]] + replaced_from(t, i + 1, from, to)
    }
}

/// The text with `to` in place of each `from`.
pub open spec fn replaced(t: Seq<char>, from: Seq<char>, to: Seq<char>) -> Seq<char> {
    replaced_from(t, 0, from, to)
}

/// The text with `to` in place of each `from`.
pub fn replace_all(text: &str, from: &str, to: &str) -> (out: String)
    requires
        from@.len() > 0,
    ensures
        out@ == replaced(text@, from@, to@),
{
    let t = Source::new(text);
    let n = t.len();
    let mut out = String::new();
    let mut i: usize = 0;
    while i < n
        invariant
            i <= n,
            n == t@.len(),
            t@ == text@,
            from@.len() > 0,
            out@ + replaced_from(t@, i as int, from@, to@) == replaced(t@, from@, to@),
        decreases n - i,
    {
        let ghost before = out@;
        match tag(&t, i, from) {
            Ok((_, next)) => {
                out.append(to);
                proof {
                    assert((before + to@) + replaced_from(t@, next as int, from@, to@) =~= before
                        + (to@ + replaced_from(t@, next as int, from@, to@)));
                }
                i = next;
            },
            Err(_) => {
                out.push(t.char_at(i));
                proof {
                    assert(before.push(t@[i as int]) + replaced_from(t@, i + 1, from@, to@)
                        =~= before + (seq![t@[i as int]] + replaced_from(
                        t@,
                        i + 1,
                        from@,
                        to@,
                    )));
                }
                i = i + 1;
            },
        }
    }
    proof {
        assert(out@ + Seq::<char>::empty() =~= out@);
    }
    out
}

impl KeywordView {
    /// The regular expression that the keyword is searched for with. A
    /// `\"` in the keyword stands for a `"`. The meta characters are
    /// escaped, and the expression does not tell upper from lower case. In
    /// a keyword with wildcards each `*` matches any characters, as few as
    /// possible, and where the keyword ends in `*` the match has to reach
    /// the end of the text that is searched.
    pub open spec fn regex_source(self) -> Seq<char> {
        let plain = "(?i)"@ + escaped(replaced(self.text, "\\\""@, "\""@));
        if self.mode == KeywordType::WILDCARD {
            let wild = replaced(plain, "\\*"@, "(.*?)"@);
            if self.text.len() > 0 && self.text.last() == '*' {
                wild.push('$')
            } else {
                wild
            }
        } else {
            plain
        }
    }
}

/// A text in which every meta character has a backslash before it that
/// belongs to it alone: read as a regular expression, it stands for its
/// own characters and for nothing else.
pub open spec fn is_literal(p: Seq<char>) -> bool
    decreases p.len(),
{
    if p.len() == 0 {
        true
    } else if is_meta_character(p.last()) {
        p.len() >= 2 && p[p.len() - 2] == '\\' && is_literal(p.take(p.len() - 2))
    } else {
        is_literal(p.drop_last())
    }
}

/// A text with its meta characters escaped is a literal.
pub proof fn lemma_escaped_is_literal(t: Seq<char>)
    ensures
        is_literal(escaped(t)),
    decreases t.len(),
{
    if t.len() > 0 {
        lemma_escaped_is_literal(t.drop_last());
        let before = escaped(t.drop_last());
        if is_meta_character(t.last()) {
            assert(escaped(t).take(escaped(t).len() - 2) =~= before);
        } else {
            assert(escaped(t).drop_last() =~= before);
        }
    }
}

/// The expression of a keyword that is to be searched for as it is, is the
/// mark that upper and lower case are not told apart and a literal: no
/// character of the keyword works as a meta character.
pub proof fn lemma_exact_is_literal(k: KeywordView)
    requires
        k.mode == KeywordType::EXACT,
    ensures
        k.regex_source().take(4) == "(?i)"@,
        is_literal(k.regex_source().skip(4)),
{
    reveal_strlit("(?i)");
    let body = escaped(replaced(k.text, "\\\""@, "\""@));
    lemma_escaped_is_literal(replaced(k.text, "\\\""@, "\""@));
    assert(k.regex_source().take(4) =~= "(?i)"@);
    assert(k.regex_source().skip(4) =~= body);
}

/// The expression of a keyword with wildcards that ends in `*` ends in
/// `$`: the match has to reach the end of the text that is searched.
pub proof fn lemma_wildcard_anchored(k: KeywordView)
    requires
        k.mode == KeywordType::WILDCARD,
        k.text.len() > 0,
        k.text.last() == '*',
    ensures
        k.regex_source().last() == '$',
{
}

impl Keyword {
    /// Create a Keyword that will exactly match an input string.
    pub fn new_exact(str: String) -> (k: Keyword)
        ensures
            k.deep_view() == (KeywordView { text: str@, mode: KeywordType::EXACT }),
    {
        Keyword(str, KeywordType::EXACT)
    }

    /// Create a Keyword that can contain wildcards.
    pub fn new_wildcard(str: String) -> (k: Keyword)
        ensures
            k.deep_view() == (KeywordView { text: str@, mode: KeywordType::WILDCARD }),
    {
        Keyword(str, KeywordType::WILDCARD)
    }

    /// Test if this is an empty keyword string.
    pub fn is_empty(&self) -> (r: bool)
        ensures
            r == (self.deep_view().text.len() == 0),
    {
        self.0.as_str().is_empty()
    }

    /// The text of the regular expression for this keyword.
    pub fn regex_source(&self) -> (out: String)
        ensures
            out@ == self.deep_view().regex_source(),
    {
        proof {
            reveal_strlit("\\\"");
            reveal_strlit("\\*");
        }
        let unquoted = replace_all(self.0.as_str(), "\\\"", "\"");
        let mut source = "(?i)".to_owned();
        source.append(escape(unquoted.as_str()).as_str());
        match self.1 {
            KeywordType::EXACT => source,
            KeywordType::WILDCARD => {
                let mut wild = replace_all(source.as_str(), "\\*", "(.*?)");
                let text = Source::new(self.0.as_str());
                let n = text.len();
                if n > 0 && text.char_at(n - 1) == '*' {
                    wild.push('$');
                }
                wild
            },
        }
    }

    /// Convert this keyword to a `regex::Regex` object: the expression of
    /// [`Keyword::regex_source`], compiled. There is one where the regular
    /// expression engine accepts that expression, and none where it
    /// refuses it.
    pub fn to_regex(&self) -> (r: Option<regex::Regex>)
        ensures
            r is Some <==> regex_accepts(self.deep_view().regex_source()),
            r matches Some(re) ==> regex_text(re) == self.deep_view().regex_source(),
    {
        compile(self.regex_source().as_str())
    }
}

} // verus!
