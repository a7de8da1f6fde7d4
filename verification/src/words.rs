//! Word-boundary segmentation over the document's bytes.
//!
//! A word is a maximal run of bytes of one class: word bytes (letters,
//! digits, and every byte outside the ASCII range, so multi-byte characters
//! are never split) or punctuation bytes. Whitespace separates words. A
//! [`WordCursor`] seeded at an offset steps to the start of the previous
//! word or the end of the next one, absent only at the document's edges.

use vstd::prelude::*;

use crate::text::Text;
use crate::text::text_bytes;

verus! {

/// The class of one byte for word segmentation.
#[derive(Clone, Copy, PartialEq, Eq, Structural)]
pub enum ByteClass {
    /// Spaces, tabs, newlines and other ASCII control bytes.
    Whitespace,
    /// ASCII punctuation.
    Punct,
    /// Letters, digits, and every byte outside the ASCII range.
    Word,
}

/// The class of a byte.
pub open spec fn byte_class_spec(b: u8) -> ByteClass {
    if b <= 32 {
        ByteClass::Whitespace
    } else if (33 <= b && b <= 47) || (58 <= b && b <= 64) || (91 <= b && b <= 96)
        || (123 <= b && b <= 126) {
        ByteClass::Punct
    } else {
        ByteClass::Word
    }
}

/// The class of a byte.
pub fn byte_class(b: u8) -> (r: ByteClass)
    ensures
        r == byte_class_spec(b),
{
    if b <= 32 {
        ByteClass::Whitespace
    } else if (33 <= b && b <= 47) || (58 <= b && b <= 64) || (91 <= b && b <= 96)
        || (123 <= b && b <= 126) {
        ByteClass::Punct
    } else {
        ByteClass::Word
    }
}

/// The position reached from `i` by skipping whitespace backwards.
pub open spec fn skip_ws_back_spec(s: Seq<u8>, i: int) -> int
    decreases i,
{
    if i <= 0 {
        0
    } else if byte_class_spec(s[i - 1]) == ByteClass::Whitespace {
        skip_ws_back_spec(s, i - 1)
    } else {
        i
    }
}

/// The start of the run of bytes of class `c` that ends at `i`.
pub open spec fn run_start_spec(s: Seq<u8>, i: int, c: ByteClass) -> int
    decreases i,
{
    if i <= 0 {
        0
    } else if byte_class_spec(s[i - 1]) == c {
        run_start_spec(s, i - 1, c)
    } else {
        i
    }
}

/// The position reached from `i` by skipping whitespace forwards.
pub open spec fn skip_ws_fwd_spec(s: Seq<u8>, i: int) -> int
    decreases s.len() - i,
{
    if i >= s.len() {
        s.len() as int
    } else if byte_class_spec(s[i]) == ByteClass::Whitespace {
        skip_ws_fwd_spec(s, i + 1)
    } else {
        i
    }
}

/// The end of the run of bytes of class `c` that starts at `i`.
pub open spec fn run_end_spec(s: Seq<u8>, i: int, c: ByteClass) -> int
    decreases s.len() - i,
{
    if i >= s.len() {
        s.len() as int
    } else if byte_class_spec(s[i]) == c {
        run_end_spec(s, i + 1, c)
    } else {
        i
    }
}

/// The start of the word before `pos`: whitespace before `pos` is skipped,
/// then the run of the class found there is followed to its start. Absent
/// only at the start of the document.
pub open spec fn prev_word_boundary_spec(s: Seq<u8>, pos: int) -> Option<int> {
    if pos <= 0 {
        None
    } else {
        let j = skip_ws_back_spec(s, pos);
        if j == 0 {
            Some(0)
        } else {
            Some(run_start_spec(s, j, byte_class_spec(s[j - 1])))
        }
    }
}

/// The end of the word after `pos`: whitespace after `pos` is skipped, then
/// the run of the class found there is followed to its end. Absent only at
/// the end of the document.
pub open spec fn next_word_boundary_spec(s: Seq<u8>, pos: int) -> Option<int> {
    if pos >= s.len() {
        None
    } else {
        let j = skip_ws_fwd_spec(s, pos);
        if j == s.len() {
            Some(s.len() as int)
        } else {
            Some(run_end_spec(s, j, byte_class_spec(s[j])))
        }
    }
}

proof fn lemma_skip_ws_back_range(s: Seq<u8>, i: int)
    requires
        0 <= i <= s.len(),
    ensures
        0 <= skip_ws_back_spec(s, i) <= i,
    decreases i,
{
    if i > 0 && byte_class_spec(s[i - 1]) == ByteClass::Whitespace {
        lemma_skip_ws_back_range(s, i - 1);
    }
}

proof fn lemma_run_start_range(s: Seq<u8>, i: int, c: ByteClass)
    requires
        0 <= i <= s.len(),
    ensures
        0 <= run_start_spec(s, i, c) <= i,
        i > 0 && byte_class_spec(s[i - 1]) == c ==> run_start_spec(s, i, c) < i,
    decreases i,
{
    if i > 0 && byte_class_spec(s[i - 1]) == c {
        lemma_run_start_range(s, i - 1, c);
    }
}

proof fn lemma_skip_ws_fwd_range(s: Seq<u8>, i: int)
    requires
        0 <= i <= s.len(),
    ensures
        i <= skip_ws_fwd_spec(s, i) <= s.len(),
    decreases s.len() - i,
{
    if i < s.len() && byte_class_spec(s[i]) == ByteClass::Whitespace {
        lemma_skip_ws_fwd_range(s, i + 1);
    }
}

proof fn lemma_run_end_range(s: Seq<u8>, i: int, c: ByteClass)
    requires
        0 <= i <= s.len(),
    ensures
        i <= run_end_spec(s, i, c) <= s.len(),
        i < s.len() && byte_class_spec(s[i]) == c ==> i < run_end_spec(s, i, c),
    decreases s.len() - i,
{
    if i < s.len() && byte_class_spec(s[i]) == c {
        lemma_run_end_range(s, i + 1, c);
    }
}

/// A cursor over the word boundaries of a document, seeded at an offset.
pub struct WordCursor<'a> {
    text: &'a Text,
    pos: usize,
}

impl<'a> WordCursor<'a> {
    /// The offset the cursor sits at.
    pub closed spec fn pos_spec(&self) -> int {
        self.pos as int
    }

    /// The document the cursor walks.
    pub closed spec fn text_spec(&self) -> &'a Text {
        self.text
    }

    /// A cursor seeded at `pos`.
    pub fn new(text: &'a Text, pos: usize) -> (r: WordCursor<'a>)
        requires
            pos <= text.len_spec(),
        ensures
            r.text_spec() == text,
            r.pos_spec() == pos,
    {
        WordCursor { text, pos }
    }

    /// Step to the start of the previous word and return it, `None` at the
    /// start of the document.
    pub fn prev_boundary(&mut self) -> (r: Option<usize>)
        requires
            old(self).pos_spec() <= old(self).text_spec().len_spec(),
        ensures
            final(self).text_spec() == old(self).text_spec(),
            match r {
                Some(o) => prev_word_boundary_spec(text_bytes(old(self).text_spec()), old(self).pos_spec())
                    == Some(o as int) && o < old(self).pos_spec() && final(self).pos_spec() == o,
                None => prev_word_boundary_spec(text_bytes(old(self).text_spec()), old(self).pos_spec())
                    is None && final(self).pos_spec() == old(self).pos_spec(),
            },
    {
        let ghost s = text_bytes(self.text);
        if self.pos == 0 {
            return None;
        }
        let mut i = self.pos;
        while i > 0 && matches!(byte_class(self.text.byte_at(i - 1)), ByteClass::Whitespace)
            invariant
                self == old(self),
                s == text_bytes(self.text),
                0 <= i <= self.pos <= s.len(),
                skip_ws_back_spec(s, self.pos as int) == skip_ws_back_spec(s, i as int),
            decreases i,
        {
            i = i - 1;
        }
        proof {
            lemma_skip_ws_back_range(s, self.pos as int);
        }
        if i == 0 {
            self.pos = 0;
            return Some(0);
        }
        let c = byte_class(self.text.byte_at(i - 1));
        let ghost j = i as int;
        while i > 0 && byte_class(self.text.byte_at(i - 1)) == c
            invariant
                self == old(self),
                s == text_bytes(self.text),
                c == byte_class_spec(s[j - 1]),
                0 <= i <= j <= s.len(),
                run_start_spec(s, j, c) == run_start_spec(s, i as int, c),
            decreases i,
        {
            i = i - 1;
        }
        proof {
            lemma_run_start_range(s, j, c);
        }
        self.pos = i;
        Some(i)
    }

    /// Step to the end of the next word and return it, `None` at the end of
    /// the document.
    pub fn next_boundary(&mut self) -> (r: Option<usize>)
        requires
            old(self).pos_spec() <= old(self).text_spec().len_spec(),
        ensures
            final(self).text_spec() == old(self).text_spec(),
            match r {
                Some(o) => next_word_boundary_spec(text_bytes(old(self).text_spec()), old(self).pos_spec())
                    == Some(o as int) && old(self).pos_spec() < o && o <= old(self).text_spec().len_spec()
                    && final(self).pos_spec() == o,
                None => next_word_boundary_spec(text_bytes(old(self).text_spec()), old(self).pos_spec())
                    is None && final(self).pos_spec() == old(self).pos_spec(),
            },
    {
        let ghost s = text_bytes(self.text);
        let n = self.text.len();
        if self.pos >= n {
            return None;
        }
        let mut i = self.pos;
        while i < n && matches!(byte_class(self.text.byte_at(i)), ByteClass::Whitespace)
            invariant
                self == old(self),
                s == text_bytes(self.text),
                n == s.len(),
                self.pos <= i <= s.len(),
                skip_ws_fwd_spec(s, self.pos as int) == skip_ws_fwd_spec(s, i as int),
            decreases n - i,
        {
            i = i + 1;
        }
        proof {
            lemma_skip_ws_fwd_range(s, self.pos as int);
        }
        if i == n {
            self.pos = n;
            return Some(n);
        }
        let c = byte_class(self.text.byte_at(i));
        let ghost j = i as int;
        while i < n && byte_class(self.text.byte_at(i)) == c
            invariant
                self == old(self),
                s == text_bytes(self.text),
                n == s.len(),
                c == byte_class_spec(s[j]),
                0 <= j <= i <= s.len(),
                run_end_spec(s, j, c) == run_end_spec(s, i as int, c),
            decreases n - i,
        {
            i = i + 1;
        }
        proof {
            lemma_run_end_range(s, j, c);
        }
        self.pos = i;
        Some(i)
    }
}

} // verus!
