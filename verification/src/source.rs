//! The text of a query, held so that a parser can step through its
//! characters and still report byte offsets.

use vstd::prelude::*;
use vstd::utf8::encode_utf8;
use crate::position::{
    QueryPosition, byte_offset, lemma_byte_offset_monotonic, lemma_byte_offset_step, mark,
    utf8_width,
};

verus! {

/// `String::push` appends one character to the string.
pub assume_specification[ String::push ](s: &mut String, ch: char)
    ensures
        final(s)@ == old(s)@.push(ch),
;

/// The characters of a query and the byte offset of each of them.
pub struct Source {
    chars: Vec<char>,
    offsets: Vec<usize>,
}

impl View for Source {
    type V = Seq<char>;

    closed spec fn view(&self) -> Seq<char> {
        self.chars@
    }
}

/// The number of bytes that the character takes in UTF-8.
fn width_of(c: char) -> (w: usize)
    ensures
        w == utf8_width(c),
{
    let u: u32 = c as u32;
    if u < 0x80 {
        1
    } else if u < 0x800 {
        2
    } else if u < 0x10000 {
        3
    } else {
        4
    }
}

impl Source {
    #[verifier::type_invariant]
    spec fn wf(&self) -> bool {
        &&& self.offsets@.len() == self.chars@.len() + 1
        &&& forall|k: int|
            0 <= k <= self.chars@.len() ==> #[trigger] self.offsets@[k] == byte_offset(
                self.chars@,
                k,
            )
    }

    /// Reads the text of a query.
    pub fn new(text: &str) -> (src: Source)
        ensures
            src@ == text@,
    {
        let total: usize = text.as_bytes().len();
        let mut chars: Vec<char> = Vec::new();
        let mut offsets: Vec<usize> = Vec::new();
        let mut at: usize = 0;
        offsets.push(0);
        proof {
            assert(text@.take(0) =~= Seq::<char>::empty());
            assert(text@.take(text@.len() as int) =~= text@);
        }
        for c in it: text.chars()
            invariant
                it.seq() == text@,
                total == encode_utf8(text@).len(),
                chars@ == text@.take(it.index()),
                offsets@.len() == it.index() + 1,
                at == byte_offset(text@, it.index()),
                forall|k: int|
                    0 <= k <= it.index() ==> #[trigger] offsets@[k] == byte_offset(text@, k),
        {
            proof {
                lemma_byte_offset_step(text@, it.index());
                lemma_byte_offset_monotonic(text@, it.index() + 1, text@.len() as int);
                assert(text@.take(text@.len() as int) =~= text@);
                assert(text@.take(it.index() + 1) =~= text@.take(it.index()).push(c));
            }
            at = at + width_of(c);
            chars.push(c);
            offsets.push(at);
        }
        proof {
            assert(chars@ =~= text@);
            assert forall|k: int| 0 <= k <= chars@.len() implies #[trigger] offsets@[k]
                == byte_offset(chars@, k) by {}
        }
        Source { chars, offsets }
    }

    /// The number of characters.
    pub fn len(&self) -> (n: usize)
        ensures
            n == self@.len(),
    {
        self.chars.len()
    }

    /// The character with index `i`.
    pub fn char_at(&self, i: usize) -> (c: char)
        requires
            i < self@.len(),
        ensures
            c == self@[i as int],
    {
        self.chars[i]
    }

    /// The position of the character with index `i`: its byte offset.
    pub fn position(&self, i: usize) -> (p: QueryPosition)
        requires
            i <= self@.len(),
        ensures
            p == mark(self@, i as int),
            p.0 == byte_offset(self@, i as int),
    {
        proof {
            use_type_invariant(self);
        }
        QueryPosition(self.offsets[i])
    }

    /// The characters from index `from` up to index `to`, as a string.
    pub fn slice(&self, from: usize, to: usize) -> (out: String)
        requires
            from <= to <= self@.len(),
        ensures
            out@ == self@.subrange(from as int, to as int),
    {
        let mut out = String::new();
        let mut i: usize = from;
        while i < to
            invariant
                from <= i <= to <= self.chars@.len(),
                out@ == self.chars@.subrange(from as int, i as int),
            decreases to - i,
        {
            out.push(self.chars[i]);
            proof {
                assert(self.chars@.subrange(from as int, i + 1) =~= self.chars@.subrange(
                    from as int,
                    i as int,
                ).push(self.chars@[i as int]));
            }
            i = i + 1;
        }
        out
    }
}

} // verus!
