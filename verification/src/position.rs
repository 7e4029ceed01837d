//! Positions in the text of a query, and values that carry their span.

use vstd::prelude::*;
use vstd::utf8::encode_utf8;

verus! {

/// A byte offset into the text of a query.
#[derive(Debug, PartialEq, Eq, Clone, Copy)]
pub struct QueryPosition(pub usize);

impl DeepView for QueryPosition {
    type V = QueryPosition;

    open spec fn deep_view(&self) -> QueryPosition {
        *self
    }
}

/// A value from the query with the span of text that it came from.
#[derive(Debug, PartialEq, Clone)]
pub struct Positioned<T> {
    pub start_pos: QueryPosition,
    pub end_pos: QueryPosition,
    pub value: T,
}

impl<T: DeepView> DeepView for Positioned<T> {
    type V = Positioned<T::V>;

    open spec fn deep_view(&self) -> Positioned<T::V> {
        Positioned {
            start_pos: self.start_pos,
            end_pos: self.end_pos,
            value: self.value.deep_view(),
        }
    }
}

impl<T> Positioned<T> {
    /// The span does not end before it starts.
    pub open spec fn wf(&self) -> bool {
        self.start_pos.0 <= self.end_pos.0
    }

    /// The value, without its span.
    pub fn into(&self) -> (v: &T)
        ensures
            *v == self.value,
    {
        &self.value
    }
}

/// The number of bytes that the first `i` characters of `s` take in UTF-8.
pub open spec fn byte_offset(s: Seq<char>, i: int) -> nat {
    encode_utf8(s.take(i)).len()
}

/// The position of the character with index `i` in `s`.
pub open spec fn mark(s: Seq<char>, i: int) -> QueryPosition {
    QueryPosition(byte_offset(s, i) as usize)
}

/// The number of bytes that one character takes in UTF-8.
pub open spec fn utf8_width(c: char) -> nat {
    if (c as u32) < 0x80 {
        1
    } else if (c as u32) < 0x800 {
        2
    } else if (c as u32) < 0x10000 {
        3
    } else {
        4
    }
}

/// One more character makes the encoding longer by its own width.
pub proof fn lemma_encode_push(a: Seq<char>, c: char)
    ensures
        encode_utf8(a.push(c)).len() == encode_utf8(a).len() + utf8_width(c),
    decreases a.len(),
{
    broadcast use vstd::utf8::char_is_scalar;

    reveal_with_fuel(encode_utf8, 2);
    if a.len() == 0 {
        assert(a.push(c).drop_first() =~= Seq::<char>::empty());
        assert(encode_utf8(a.push(c).drop_first()).len() == 0);
    } else {
        assert(a.push(c).drop_first() =~= a.drop_first().push(c));
        lemma_encode_push(a.drop_first(), c);
    }
}

/// Each character moves the byte offset on by its own width.
pub proof fn lemma_byte_offset_step(s: Seq<char>, i: int)
    requires
        0 <= i < s.len(),
    ensures
        byte_offset(s, i + 1) == byte_offset(s, i) + utf8_width(s[i]),
        byte_offset(s, 0) == 0,
{
    assert(s.take(i + 1) =~= s.take(i).push(s[i]));
    lemma_encode_push(s.take(i), s[i]);
    assert(s.take(0) =~= Seq::<char>::empty());
}

/// Byte offsets grow with the character index.
pub proof fn lemma_byte_offset_monotonic(s: Seq<char>, i: int, j: int)
    requires
        0 <= i <= j <= s.len(),
    ensures
        byte_offset(s, i) <= byte_offset(s, j),
    decreases j - i,
{
    if i < j {
        lemma_byte_offset_step(s, j - 1);
        lemma_byte_offset_monotonic(s, i, j - 1);
    }
}

} // verus!
