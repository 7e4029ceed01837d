//! Character classes of the query language.

use vstd::prelude::*;

verus! {

/// An ASCII letter.
pub open spec fn ascii_alphabetic(b: u8) -> bool {
    (0x41 <= b <= 0x5A) || (0x61 <= b <= 0x7A)
}

/// An ASCII decimal digit.
pub open spec fn ascii_digit(b: u8) -> bool {
    0x30 <= b <= 0x39
}

/// `nom::is_alphabetic` tells whether a byte is an ASCII letter.
pub assume_specification[ nom::is_alphabetic ](chr: u8) -> (r: bool)
    ensures
        r == ascii_alphabetic(chr),
;

/// `nom::is_digit` tells whether a byte is an ASCII decimal digit.
pub assume_specification[ nom::is_digit ](chr: u8) -> (r: bool)
    ensures
        r == ascii_digit(chr),
;

/// `nom::is_alphanumeric` tells whether a byte is an ASCII letter or an
/// ASCII decimal digit.
pub assume_specification[ nom::is_alphanumeric ](chr: u8) -> (r: bool)
    ensures
        r == (ascii_alphabetic(chr) || ascii_digit(chr)),
;

/// One of the letters `A` to `Z` and `a` to `z`.
pub open spec fn spec_is_letter(c: char) -> bool {
    ('A' <= c <= 'Z') || ('a' <= c <= 'z')
}

/// One of the decimal digits `0` to `9`.
pub open spec fn spec_is_digit_char(c: char) -> bool {
    '0' <= c <= '9'
}

/// The byte of an ASCII character.
fn byte_of(c: char) -> (b: u8)
    requires
        (c as u32) < 128,
    ensures
        b == c as u32,
        ascii_alphabetic(b) == spec_is_letter(c),
        ascii_digit(b) == spec_is_digit_char(c),
{
    (c as u32) as u8
}

/// A character that an identifier may hold after its first one: a letter,
/// a decimal digit or `_`.
pub open spec fn spec_is_ident(c: char) -> bool {
    spec_is_letter(c) || spec_is_digit_char(c) || c == '_'
}

/// A character that an identifier may start with: a letter or `_`.
pub open spec fn spec_starts_ident(c: char) -> bool {
    spec_is_letter(c) || c == '_'
}

/// A character that a bare search keyword may hold.
pub open spec fn spec_is_keyword(c: char) -> bool {
    ||| c == '-'
    ||| c == '_'
    ||| c == ':'
    ||| c == '/'
    ||| c == '.'
    ||| c == '+'
    ||| c == '@'
    ||| c == '#'
    ||| c == '$'
    ||| c == '%'
    ||| c == '^'
    ||| c == '*'
    ||| spec_is_letter(c)
    ||| spec_is_digit_char(c)
}

/// The number that a decimal digit stands for.
pub open spec fn digit_value(c: char) -> int {
    (c as u32) - ('0' as u32)
}

/// A space, a tab, a carriage return or a line feed.
pub open spec fn spec_is_multispace(c: char) -> bool {
    c == ' ' || c == '\t' || c == '\r' || c == '\n'
}

/// A character with the Unicode property `White_Space`.
pub open spec fn spec_is_whitespace(c: char) -> bool {
    let u = c as u32;
    ||| 0x09 <= u <= 0x0D
    ||| u == 0x20
    ||| u == 0x85
    ||| u == 0xA0
    ||| u == 0x1680
    ||| 0x2000 <= u <= 0x200A
    ||| u == 0x2028
    ||| u == 0x2029
    ||| u == 0x202F
    ||| u == 0x205F
    ||| u == 0x3000
}

/// Tests if the character can stand in an identifier after its first one.
pub fn is_ident(c: char) -> (r: bool)
    ensures
        r == spec_is_ident(c),
{
    ((c as u32) < 128 && nom::is_alphanumeric(byte_of(c))) || c == '_'
}

/// Tests if an identifier can start with the character.
pub fn starts_ident(c: char) -> (r: bool)
    ensures
        r == spec_starts_ident(c),
{
    ((c as u32) < 128 && nom::is_alphabetic(byte_of(c))) || c == '_'
}

/// Tests if the character can be part of a bare search keyword.
pub fn is_keyword(c: char) -> (r: bool)
    ensures
        r == spec_is_keyword(c),
{
    match c {
        '-' | '_' | ':' | '/' | '.' | '+' | '@' | '#' | '$' | '%' | '^' | '*' => true,
        _ => (c as u32) < 128 && nom::is_alphanumeric(byte_of(c)),
    }
}

/// Tests if the character stands for itself in a single-quoted string.
pub fn not_escape_sq(c: char) -> (r: bool)
    ensures
        r == (c != '\\' && c != '\''),
{
    c != '\\' && c != '\''
}

/// Tests if the character stands for itself in a double-quoted string.
pub fn not_escape_dq(c: char) -> (r: bool)
    ensures
        r == (c != '\\' && c != '"'),
{
    c != '\\' && c != '"'
}

/// Tests if the character is one of the decimal digits `0` to `9`.
pub fn is_digit_char(digit: char) -> (r: bool)
    ensures
        r == spec_is_digit_char(digit),
{
    (digit as u32) < 128 && nom::is_digit(byte_of(digit))
}

/// Tests if the character is a space, a tab, a carriage return or a line
/// feed.
pub fn is_multispace(c: char) -> (r: bool)
    ensures
        r == spec_is_multispace(c),
{
    c == ' ' || c == '\t' || c == '\r' || c == '\n'
}

/// Tests if the character has the Unicode property `White_Space`.
pub fn is_whitespace(c: char) -> (r: bool)
    ensures
        r == spec_is_whitespace(c),
{
    let u: u32 = c as u32;
    (0x09 <= u && u <= 0x0D) || u == 0x20 || u == 0x85 || u == 0xA0 || u == 0x1680 || (0x2000 <= u
        && u <= 0x200A) || u == 0x2028 || u == 0x2029 || u == 0x202F || u == 0x205F || u == 0x3000
}

/// The classes of characters that the grammar takes in runs.
#[derive(Debug, PartialEq, Eq, Clone, Copy)]
pub enum CharClass {
    Ident,
    Keyword,
    Digit,
    MultiSpace,
    Whitespace,
    Star,
}

impl CharClass {
    /// Whether the class holds the character.
    pub open spec fn holds(self, c: char) -> bool {
        match self {
            CharClass::Ident => spec_is_ident(c),
            CharClass::Keyword => spec_is_keyword(c),
            CharClass::Digit => spec_is_digit_char(c),
            CharClass::MultiSpace => spec_is_multispace(c),
            CharClass::Whitespace => spec_is_whitespace(c),
            CharClass::Star => c == '*',
        }
    }

    /// Tests if the class holds the character.
    pub fn contains(self, c: char) -> (r: bool)
        ensures
            r == self.holds(c),
    {
        match self {
            CharClass::Ident => is_ident(c),
            CharClass::Keyword => is_keyword(c),
            CharClass::Digit => is_digit_char(c),
            CharClass::MultiSpace => is_multispace(c),
            CharClass::Whitespace => is_whitespace(c),
            CharClass::Star => c == '*',
        }
    }
}

} // verus!
