//! Read-only line layout of a document revision.
//!
//! A [`ViewLayout`] records the start offset of every visual line together with the
//! viewport height. It maps offsets to (line, column) pairs and back; a
//! column is the byte distance from the line's start. The layout must be
//! built against the same document revision as the text it is queried with,
//! which [`ViewLayout::wf`] captures.

use vstd::prelude::*;

use crate::text::Text;

verus! {

/// The line layout: `line_starts[i]` is the offset at which visual line `i`
/// begins. The first line starts at offset 0 and the starts are strictly
/// increasing; every start is a valid offset of the document.
pub struct ViewLayout {
    /// Start offset of each visual line.
    pub line_starts: Vec<usize>,
    /// Height of the viewport, in lines.
    pub height: usize,
}

/// Well-formedness of a line layout against a document of `text_len` bytes.
pub open spec fn lines_wf(lines: Seq<usize>, text_len: nat) -> bool {
    &&& lines.len() >= 1
    &&& lines[0] == 0
    &&& forall|i: int, j: int| 0 <= i < j < lines.len() ==> #[trigger] lines[i] < #[trigger] lines[j]
    &&& forall|i: int| 0 <= i < lines.len() ==> #[trigger] lines[i] <= text_len
}

/// The index of the line containing `offset`: the greatest `i` with
/// `lines[i] <= offset`.
pub open spec fn line_of_spec(lines: Seq<usize>, offset: int) -> int
    decreases lines.len(),
{
    if lines.len() <= 1 {
        0
    } else if offset < lines[lines.len() - 1] {
        line_of_spec(lines.drop_last(), offset)
    } else {
        lines.len() - 1
    }
}

/// The column of `offset`: its byte distance from the start of its line.
pub open spec fn col_of_spec(lines: Seq<usize>, offset: int) -> int {
    offset - lines[line_of_spec(lines, offset)]
}

/// The start offset of `line`, clamped to the end of the document for
/// out-of-range line numbers.
pub open spec fn offset_of_line_spec(lines: Seq<usize>, text_len: nat, line: int) -> int {
    if line < lines.len() {
        lines[line] as int
    } else {
        text_len as int
    }
}

/// The last position on `line`: just before the next line's start, or the
/// end of the document on the last line.
pub open spec fn line_end_spec(lines: Seq<usize>, text_len: nat, line: int) -> int {
    if line + 1 < lines.len() {
        lines[line + 1] - 1
    } else {
        text_len as int
    }
}

/// The offset of `(line, col)`: the line's start plus the column, clamped to
/// the last position of the line, or the end of the document when `line` is
/// out of range.
pub open spec fn line_col_to_offset_spec(lines: Seq<usize>, text_len: nat, line: int, col: int) -> int {
    if line >= lines.len() {
        text_len as int
    } else {
        let target = lines[line] + col;
        let end = line_end_spec(lines, text_len, line);
        if target <= end {
            target
        } else {
            end
        }
    }
}

/// `line_of_spec` indeed picks the line whose half-open span contains `offset`.
pub proof fn lemma_line_of_spec(lines: Seq<usize>, text_len: nat, offset: int)
    requires
        lines_wf(lines, text_len),
        offset >= 0,
    ensures
        0 <= line_of_spec(lines, offset) < lines.len(),
        lines[line_of_spec(lines, offset)] <= offset,
        line_of_spec(lines, offset) + 1 < lines.len() ==> offset < lines[line_of_spec(lines, offset) + 1],
    decreases lines.len(),
{
    if lines.len() > 1 && offset < lines[lines.len() - 1] {
        let sub = lines.drop_last();
        assert(lines_wf(sub, text_len));
        lemma_line_of_spec(sub, text_len, offset);
        let l = line_of_spec(sub, offset);
        assert(sub[l] == lines[l]);
        if l + 1 < sub.len() {
            assert(sub[l + 1] == lines[l + 1]);
        }
    }
}

/// The line index is the unique one satisfying the containment property.
pub proof fn lemma_line_of_unique(lines: Seq<usize>, text_len: nat, offset: int, l: int)
    requires
        lines_wf(lines, text_len),
        offset >= 0,
        0 <= l < lines.len(),
        lines[l] <= offset,
        l + 1 < lines.len() ==> offset < lines[l + 1],
    ensures
        l == line_of_spec(lines, offset),
{
    lemma_line_of_spec(lines, text_len, offset);
    let m = line_of_spec(lines, offset);
    if m < l {
        assert(lines[m] < lines[l]);
    }
    if l < m {
        assert(lines[l] < lines[m]);
        assert(l + 1 <= m);
        assert(lines[l + 1] <= lines[m] || l + 1 == m);
    }
}

/// The end of the document lies on the last line.
pub proof fn lemma_line_of_text_len(lines: Seq<usize>, text_len: nat)
    requires
        lines_wf(lines, text_len),
    ensures
        line_of_spec(lines, text_len as int) == lines.len() - 1,
{
    lemma_line_of_unique(lines, text_len, text_len as int, lines.len() - 1);
}

impl ViewLayout {
    /// The layout is valid for a document of `text_len` bytes, and the
    /// viewport height fits in the signed line-delta space.
    pub open spec fn wf(&self, text_len: nat) -> bool {
        &&& lines_wf(self.line_starts@, text_len)
        &&& self.height <= isize::MAX as usize
    }

    /// Height of the viewport, in lines.
    pub fn scroll_height(&self) -> (r: usize)
        ensures
            r == self.height,
    {
        self.height
    }

    /// The index of the visual line containing `offset`.
    pub fn line_of_offset(&self, text: &Text, offset: usize) -> (r: usize)
        requires
            self.wf(text.len_spec()),
            offset <= text.len_spec(),
        ensures
            r == line_of_spec(self.line_starts@, offset as int),
    {
        let lines = &self.line_starts;
        let ghost s = self.line_starts@;
        let mut i: usize = 0;
        while i < lines.len() - 1 && lines[i + 1] <= offset
            invariant
                self.wf(text.len_spec()),
                lines == &self.line_starts,
                s == self.line_starts@,
                0 <= i < s.len(),
                s[i as int] <= offset,
            decreases s.len() - i,
        {
            i = i + 1;
        }
        proof {
            lemma_line_of_unique(s, text.len_spec(), offset as int, i as int);
        }
        i
    }

    /// The start offset of `line`, clamped to the end of the document for
    /// out-of-range line numbers.
    pub fn offset_of_line(&self, text: &Text, line: usize) -> (r: usize)
        requires
            self.wf(text.len_spec()),
        ensures
            r == offset_of_line_spec(self.line_starts@, text.len_spec(), line as int),
            r <= text.len_spec(),
    {
        if line < self.line_starts.len() {
            self.line_starts[line]
        } else {
            text.len()
        }
    }

    /// The (line, column) pair containing `offset`.
    pub fn offset_to_line_col(&self, text: &Text, offset: usize) -> (r: (usize, usize))
        requires
            self.wf(text.len_spec()),
            offset <= text.len_spec(),
        ensures
            r.0 == line_of_spec(self.line_starts@, offset as int),
            r.1 == col_of_spec(self.line_starts@, offset as int),
    {
        let line = self.line_of_offset(text, offset);
        proof {
            lemma_line_of_spec(self.line_starts@, text.len_spec(), offset as int);
        }
        (line, offset - self.line_starts[line])
    }

    /// The offset of `(line, col)`, clamped to the last position of the line
    /// and to the end of the document.
    pub fn line_col_to_offset(&self, text: &Text, line: usize, col: usize) -> (r: usize)
        requires
            self.wf(text.len_spec()),
        ensures
            r == line_col_to_offset_spec(self.line_starts@, text.len_spec(), line as int, col as int),
            r <= text.len_spec(),
    {
        let n = self.line_starts.len();
        if line >= n {
            return text.len();
        }
        let start = self.line_starts[line];
        let end = if line + 1 < n {
            self.line_starts[line + 1] - 1
        } else {
            text.len()
        };
        if col <= end - start {
            start + col
        } else {
            end
        }
    }
}

} // verus!
