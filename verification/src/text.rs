//! Trusted boundary to the rope crate that stores the document text.
//!
//! The document is an `xi_rope::Rope`, held opaquely in [`Text`]; all offsets
//! are byte offsets into its UTF-8 content. The content itself is named by
//! the uninterpreted function [`text_bytes`], and every query the movement
//! engine makes is wrapped here with a contract over that name.

use vstd::prelude::*;
use vstd::string::StringSliceAdditionalSpecFns;
use xi_rope::rope::LinesMetric;
use xi_rope::rope::Rope;
use xi_rope::tree::Cursor;

verus! {

/// A document snapshot: a rope storing UTF-8 text, queried by byte offset.
#[verifier::external_body]
pub struct Text {
    rope: Rope,
}

/// The UTF-8 bytes the document holds, as a mathematical sequence.
pub uninterp spec fn text_bytes(text: &Text) -> Seq<u8>;

impl Text {
    /// The length of the document in bytes.
    pub open spec fn len_spec(&self) -> nat {
        text_bytes(self).len()
    }

    /// Relies on `xi_rope`'s `From<&str>` impl: builds a rope holding
    /// exactly the bytes of `s`.
    #[verifier::external_body]
    pub fn from_str(s: &str) -> (r: Text)
        ensures
            text_bytes(&r) == s.spec_bytes(),
    {
        Text { rope: Rope::from(s) }
    }

    /// Relies on `xi_rope::tree::Node::len`: the length of the text in bytes.
    #[verifier::external_body]
    pub fn len(&self) -> (r: usize)
        ensures
            r == self.len_spec(),
    {
        self.rope.len()
    }

    /// Relies on `xi_rope::rope::Rope::byte_at`: the byte at the given offset.
    #[verifier::external_body]
    pub(crate) fn byte_at(&self, offset: usize) -> (r: u8)
        requires
            offset < self.len_spec(),
        ensures
            r == text_bytes(self)[offset as int],
    {
        self.rope.byte_at(offset)
    }

    /// Relies on `xi_rope::rope::Rope::prev_grapheme_offset`: the grapheme
    /// boundary strictly before `offset`, `None` at the start of the document.
    #[verifier::external_body]
    pub(crate) fn prev_grapheme_offset(&self, offset: usize) -> (r: Option<usize>)
        requires
            offset <= self.len_spec(),
        ensures
            match r {
                Some(o) => prev_grapheme_of(text_bytes(self), offset as int) == Some(o as int)
                    && o < offset,
                None => prev_grapheme_of(text_bytes(self), offset as int) is None,
            },
    {
        self.rope.prev_grapheme_offset(offset)
    }

    /// Relies on `xi_rope::rope::Rope::next_grapheme_offset`: the grapheme
    /// boundary strictly after `offset`, `None` at the end of the document.
    #[verifier::external_body]
    pub(crate) fn next_grapheme_offset(&self, offset: usize) -> (r: Option<usize>)
        requires
            offset <= self.len_spec(),
        ensures
            match r {
                Some(o) => next_grapheme_of(text_bytes(self), offset as int) == Some(o as int)
                    && offset < o && o <= self.len_spec(),
                None => next_grapheme_of(text_bytes(self), offset as int) is None,
            },
    {
        self.rope.next_grapheme_offset(offset)
    }

    /// Relies on `xi_rope::tree::Cursor::prev` with `LinesMetric`: the
    /// nearest line boundary strictly before `offset`, `None` when no
    /// newline precedes it.
    #[verifier::external_body]
    pub(crate) fn prev_line_boundary(&self, offset: usize) -> (r: Option<usize>)
        requires
            offset <= self.len_spec(),
        ensures
            match r {
                Some(p) => is_line_boundary(text_bytes(self), p as int) && p < offset
                    && forall|q: int| p < q < offset ==> !is_line_boundary(text_bytes(self), q),
                None => forall|q: int| q < offset ==> !is_line_boundary(text_bytes(self), q),
            },
    {
        let mut cursor = Cursor::new(&self.rope, offset);
        cursor.prev::<LinesMetric>()
    }

    /// Relies on `xi_rope::tree::Cursor::next` with `LinesMetric`: the
    /// nearest line boundary strictly after `offset`, `None` when no
    /// newline follows it.
    #[verifier::external_body]
    pub(crate) fn next_line_boundary(&self, offset: usize) -> (r: Option<usize>)
        requires
            offset <= self.len_spec(),
        ensures
            match r {
                Some(p) => is_line_boundary(text_bytes(self), p as int) && offset < p
                    && forall|q: int| offset < q < p ==> !is_line_boundary(text_bytes(self), q),
                None => forall|q: int| q > offset ==> !is_line_boundary(text_bytes(self), q),
            },
    {
        let mut cursor = Cursor::new(&self.rope, offset);
        cursor.next::<LinesMetric>()
    }

    /// Relies on `xi_rope::tree::Cursor::is_boundary` with `LinesMetric`:
    /// whether the offset lies just after a newline byte.
    #[verifier::external_body]
    pub(crate) fn is_line_boundary_at(&self, offset: usize) -> (r: bool)
        requires
            offset <= self.len_spec(),
        ensures
            r == is_line_boundary(text_bytes(self), offset as int),
    {
        let mut cursor = Cursor::new(&self.rope, offset);
        cursor.is_boundary::<LinesMetric>()
    }
}

/// The nearest grapheme-cluster boundary strictly before the given offset,
/// absent at the start of the document. Grapheme segmentation depends only
/// on the text's bytes, so the result is a function of them and the offset.
pub uninterp spec fn prev_grapheme_of(s: Seq<u8>, offset: int) -> Option<int>;

/// The nearest grapheme-cluster boundary strictly after the given offset,
/// absent at the end of the document.
pub uninterp spec fn next_grapheme_of(s: Seq<u8>, offset: int) -> Option<int>;

/// A line boundary is the position just after a newline byte.
pub open spec fn is_line_boundary(s: Seq<u8>, p: int) -> bool {
    1 <= p <= s.len() && s[p - 1] == 10u8
}

} // verus!
