//! Representation and calculation of movement within a view.
//!
//! [`region_movement`] maps one [`Movement`] and one selection region to a
//! new (offset, column) pair; [`selection_movement`] applies it to every
//! region of a selection and assembles a new selection. Every boundary
//! condition — document edges, absent grapheme or word boundaries,
//! out-of-range lines — is resolved by clamping to a valid offset, never by
//! failing.

use vstd::prelude::*;

use crate::selection::Affinity;
use crate::selection::HorizPos;
use crate::selection::SelRegion;
use crate::selection::Selection;
use crate::selection::add_region_spec;
use crate::selection::lemma_add_region_valid;
use crate::text::Text;
use crate::text::is_line_boundary;
use crate::text::next_grapheme_of;
use crate::text::prev_grapheme_of;
use crate::text::text_bytes;
use crate::view::ViewLayout;
use crate::view::col_of_spec;
use crate::view::lemma_line_of_spec;
use crate::view::lemma_line_of_text_len;
use crate::view::line_col_to_offset_spec;
use crate::view::line_of_spec;
use crate::words::WordCursor;
use crate::words::next_word_boundary_spec;
use crate::words::prev_word_boundary_spec;

verus! {

/// The specification of a movement.
#[derive(Clone, Copy)]
pub enum Movement {
    /// Move to the left by one grapheme cluster.
    Left,
    /// Move to the right by one grapheme cluster.
    Right,
    /// Move to the left by one word.
    LeftWord,
    /// Move to the right by one word.
    RightWord,
    /// Move to left end of visible line.
    LeftOfLine,
    /// Move to right end of visible line.
    RightOfLine,
    /// Move up one visible line.
    Up,
    /// Move down one visible line.
    Down,
    /// Move up one viewport height.
    UpPage,
    /// Move down one viewport height.
    DownPage,
    /// Move to the start of the text line.
    StartOfParagraph,
    /// Move to the end of the text line.
    EndOfParagraph,
    /// Move to the start of the document.
    StartOfDocument,
    /// Move to the end of the document.
    EndOfDocument,
}

/// An optional column as a mathematical value.
pub open spec fn opt_int(o: Option<usize>) -> Option<int> {
    match o {
        Some(c) => Some(c as int),
        None => None,
    }
}

/// An offset together with the column resolved from it.
pub open spec fn resolve_spec(lines: Seq<usize>, offset: int) -> (int, Option<int>) {
    (offset, Some(col_of_spec(lines, offset)))
}

/// The executable (offset, column) pair agrees with the mathematical one.
pub open spec fn pair_matches(r: (usize, Option<HorizPos>), s: (int, Option<int>)) -> bool {
    r.0 == s.0 && opt_int(r.1) == s.1
}

/// Calculate a horizontal position in the view, based on the offset. Return
/// value has the same shape as `region_movement` for convenience.
pub fn calc_horiz(view: &ViewLayout, text: &Text, offset: usize) -> (res: (usize, Option<HorizPos>))
    requires
        view.wf(text.len_spec()),
        offset <= text.len_spec(),
    ensures
        pair_matches(res, resolve_spec(view.line_starts@, offset as int)),
        res.0 == offset,
{
    let (_line, col) = view.offset_to_line_col(text, offset);
    (offset, Some(col))
}

/// The scroll amount of a page move, from the viewport height: two lines
/// fewer for overlap, and at least one line.
pub open spec fn scroll_height_spec(height: int) -> int {
    if height >= 3 {
        height - 2
    } else {
        1
    }
}

/// Computes the actual desired amount of scrolling (generally slightly less
/// than the height of the viewport, to allow overlap).
pub fn scroll_height(view: &ViewLayout) -> (r: isize)
    requires
        view.height <= isize::MAX as usize,
    ensures
        r == scroll_height_spec(view.height as int),
        1 <= r,
{
    let h = view.scroll_height();
    if h >= 3 {
        (h - 2) as isize
    } else {
        1
    }
}

/// The point vertical motion moves from: always the active point when
/// extending, else the leading edge of the region in the direction of travel.
pub open spec fn vertical_active_spec(r: SelRegion, line_delta: int, modify: bool) -> int {
    if modify {
        r.end as int
    } else if line_delta < 0 {
        r.min_spec()
    } else {
        r.max_spec()
    }
}

/// The column vertical motion targets: the cached column when present, else
/// the active point's own column.
pub open spec fn vertical_col_spec(r: SelRegion, lines: Seq<usize>, line_delta: int, modify: bool) -> int {
    match r.horiz {
        Some(c) => c as int,
        None => col_of_spec(lines, vertical_active_spec(r, line_delta, modify)),
    }
}

/// What vertical motion by `line_delta` lines yields: motion past the first
/// line clamps to offset 0 and motion past the last line to the document's
/// end, both keeping the column; otherwise the target line and column are
/// mapped back to an offset, and when nothing moved the column is resolved
/// afresh instead of keeping a possibly stale cache.
pub open spec fn vertical_motion_spec(
    r: SelRegion,
    lines: Seq<usize>,
    text_len: nat,
    line_delta: int,
    modify: bool,
) -> (int, Option<int>) {
    let active = vertical_active_spec(r, line_delta, modify);
    let col = vertical_col_spec(r, lines, line_delta, modify);
    let line = line_of_spec(lines, active);
    if line_delta < 0 && -line_delta > line {
        (0, Some(col))
    } else {
        let target = if line_delta < 0 {
            line + line_delta
        } else if line + line_delta > usize::MAX {
            usize::MAX as int
        } else {
            line + line_delta
        };
        if target > lines.len() - 1 {
            (text_len as int, Some(col))
        } else {
            let new_offset = line_col_to_offset_spec(lines, text_len, target, col);
            if new_offset == active {
                resolve_spec(lines, new_offset)
            } else {
                (new_offset, Some(col))
            }
        }
    }
}

/// Compute movement based on vertical motion by the given number of lines.
///
/// In non-exceptional cases this function preserves the `horiz` field of the
/// selection region.
pub fn vertical_motion(
    r: &SelRegion,
    view: &ViewLayout,
    text: &Text,
    line_delta: isize,
    modify: bool,
) -> (res: (usize, Option<HorizPos>))
    requires
        view.wf(text.len_spec()),
        r.valid(text.len_spec()),
    ensures
        pair_matches(
            res,
            vertical_motion_spec(*r, view.line_starts@, text.len_spec(), line_delta as int, modify),
        ),
        res.0 <= text.len_spec(),
{
    let ghost lines = view.line_starts@;
    let active = if modify {
        r.end
    } else if line_delta < 0 {
        r.min()
    } else {
        r.max()
    };
    let col = match r.horiz {
        Some(c) => c,
        None => view.offset_to_line_col(text, active).1,
    };
    let line = view.line_of_offset(text, active);
    let target: usize;
    if line_delta < 0 {
        let mag: usize = if line_delta == isize::MIN {
            (isize::MAX as usize) + 1
        } else {
            (-line_delta) as usize
        };
        if mag > line {
            return (0, Some(col));
        }
        target = line - mag;
    } else {
        let mag = line_delta as usize;
        target = if line > usize::MAX - mag {
            usize::MAX
        } else {
            line + mag
        };
    }
    let n_lines = view.line_of_offset(text, text.len());
    proof {
        lemma_line_of_text_len(lines, text.len_spec());
    }
    if target > n_lines {
        return (text.len(), Some(col));
    }
    let new_offset = view.line_col_to_offset(text, target, col);
    if new_offset == active {
        calc_horiz(view, text, new_offset)
    } else {
        (new_offset, Some(col))
    }
}

/// The nearest line boundary strictly before `offset`, if any.
pub open spec fn prev_line_boundary_spec(s: Seq<u8>, offset: int) -> Option<int>
    decreases offset,
{
    if offset <= 1 {
        None
    } else if is_line_boundary(s, offset - 1) {
        Some(offset - 1)
    } else {
        prev_line_boundary_spec(s, offset - 1)
    }
}

/// The nearest line boundary strictly after `offset`, if any.
pub open spec fn next_line_boundary_spec(s: Seq<u8>, offset: int) -> Option<int>
    decreases s.len() - offset,
{
    if offset + 1 > s.len() {
        None
    } else if is_line_boundary(s, offset + 1) {
        Some(offset + 1)
    } else {
        next_line_boundary_spec(s, offset + 1)
    }
}

proof fn lemma_prev_line_boundary_none(s: Seq<u8>, offset: int)
    requires
        forall|q: int| q < offset ==> !is_line_boundary(s, q),
    ensures
        prev_line_boundary_spec(s, offset) is None,
    decreases offset,
{
    if offset > 1 {
        lemma_prev_line_boundary_none(s, offset - 1);
    }
}

proof fn lemma_prev_line_boundary_some(s: Seq<u8>, offset: int, p: int)
    requires
        is_line_boundary(s, p),
        p < offset,
        forall|q: int| p < q < offset ==> !is_line_boundary(s, q),
    ensures
        prev_line_boundary_spec(s, offset) == Some(p),
    decreases offset,
{
    if p < offset - 1 {
        lemma_prev_line_boundary_some(s, offset - 1, p);
    }
}

proof fn lemma_next_line_boundary_none(s: Seq<u8>, offset: int)
    requires
        forall|q: int| q > offset ==> !is_line_boundary(s, q),
    ensures
        next_line_boundary_spec(s, offset) is None,
    decreases s.len() - offset,
{
    if offset + 1 <= s.len() {
        lemma_next_line_boundary_none(s, offset + 1);
    }
}

proof fn lemma_next_line_boundary_some(s: Seq<u8>, offset: int, p: int)
    requires
        is_line_boundary(s, p),
        offset < p,
        forall|q: int| offset < q < p ==> !is_line_boundary(s, q),
    ensures
        next_line_boundary_spec(s, offset) == Some(p),
    decreases s.len() - offset,
{
    if offset + 1 < p {
        lemma_next_line_boundary_some(s, offset + 1, p);
    }
}

/// What one movement yields for one region: the new active offset and the
/// column to cache with it.
pub open spec fn region_movement_spec(
    m: Movement,
    r: SelRegion,
    lines: Seq<usize>,
    s: Seq<u8>,
    height: nat,
    modify: bool,
) -> (int, Option<int>) {
    match m {
        Movement::Left => {
            if r.is_caret_spec() || modify {
                match prev_grapheme_of(s, r.end as int) {
                    Some(o) => resolve_spec(lines, o),
                    None => (0, opt_int(r.horiz)),
                }
            } else {
                resolve_spec(lines, r.min_spec())
            }
        },
        Movement::Right => {
            if r.is_caret_spec() || modify {
                match next_grapheme_of(s, r.end as int) {
                    Some(o) => resolve_spec(lines, o),
                    None => (r.end as int, opt_int(r.horiz)),
                }
            } else {
                resolve_spec(lines, r.max_spec())
            }
        },
        Movement::LeftWord => {
            let o = match prev_word_boundary_spec(s, r.end as int) {
                Some(o) => o,
                None => 0,
            };
            resolve_spec(lines, o)
        },
        Movement::RightWord => {
            let o = match next_word_boundary_spec(s, r.end as int) {
                Some(o) => o,
                None => s.len() as int,
            };
            resolve_spec(lines, o)
        },
        Movement::LeftOfLine => resolve_spec(
            lines,
            lines[line_of_spec(lines, r.end as int)] as int,
        ),
        Movement::RightOfLine => {
            let line = line_of_spec(lines, r.end as int);
            if line < lines.len() - 1 {
                match prev_grapheme_of(s, lines[line + 1] as int) {
                    Some(p) => resolve_spec(lines, p),
                    None => resolve_spec(lines, s.len() as int),
                }
            } else {
                resolve_spec(lines, s.len() as int)
            }
        },
        Movement::Up => vertical_motion_spec(r, lines, s.len(), -1, modify),
        Movement::Down => vertical_motion_spec(r, lines, s.len(), 1, modify),
        Movement::UpPage => vertical_motion_spec(
            r,
            lines,
            s.len(),
            -scroll_height_spec(height as int),
            modify,
        ),
        Movement::DownPage => vertical_motion_spec(
            r,
            lines,
            s.len(),
            scroll_height_spec(height as int),
            modify,
        ),
        Movement::StartOfParagraph => {
            let o = match prev_line_boundary_spec(s, r.end as int) {
                Some(p) => p,
                None => 0,
            };
            resolve_spec(lines, o)
        },
        Movement::EndOfParagraph => {
            let o = match next_line_boundary_spec(s, r.end as int) {
                Some(p) => match prev_grapheme_of(s, p) {
                    Some(e) => e,
                    None => r.end as int,
                },
                None => r.end as int,
            };
            resolve_spec(lines, o)
        },
        Movement::StartOfDocument => resolve_spec(lines, 0),
        Movement::EndOfDocument => resolve_spec(lines, s.len() as int),
    }
}

/// Compute the result of movement on one selection region.
pub fn region_movement(
    m: Movement,
    r: &SelRegion,
    view: &ViewLayout,
    text: &Text,
    modify: bool,
) -> (res: (usize, Option<HorizPos>))
    requires
        view.wf(text.len_spec()),
        r.valid(text.len_spec()),
    ensures
        pair_matches(
            res,
            region_movement_spec(
                m,
                *r,
                view.line_starts@,
                text_bytes(text),
                view.height as nat,
                modify,
            ),
        ),
        res.0 <= text.len_spec(),
        // The end of a paragraph steps strictly back from the line boundary
        // it found, so it never lands on that boundary itself.
        m matches Movement::EndOfParagraph ==> (next_line_boundary_spec(
            text_bytes(text),
            r.end as int,
        ) matches Some(p) ==> (prev_grapheme_of(text_bytes(text), p) matches Some(e)
            ==> res.0 == e && e < p)),
{
    let ghost lines = view.line_starts@;
    let ghost bytes = text_bytes(text);
    match m {
        Movement::Left => {
            if r.is_caret() || modify {
                match text.prev_grapheme_offset(r.end) {
                    Some(offset) => calc_horiz(view, text, offset),
                    None => (0, r.horiz),
                }
            } else {
                calc_horiz(view, text, r.min())
            }
        },
        Movement::Right => {
            if r.is_caret() || modify {
                match text.next_grapheme_offset(r.end) {
                    Some(offset) => calc_horiz(view, text, offset),
                    None => (r.end, r.horiz),
                }
            } else {
                calc_horiz(view, text, r.max())
            }
        },
        Movement::LeftWord => {
            let mut word_cursor = WordCursor::new(text, r.end);
            let offset = match word_cursor.prev_boundary() {
                Some(o) => o,
                None => 0,
            };
            calc_horiz(view, text, offset)
        },
        Movement::RightWord => {
            let mut word_cursor = WordCursor::new(text, r.end);
            let offset = match word_cursor.next_boundary() {
                Some(o) => o,
                None => text.len(),
            };
            calc_horiz(view, text, offset)
        },
        Movement::LeftOfLine => {
            let line = view.line_of_offset(text, r.end);
            proof {
                lemma_line_of_spec(lines, text.len_spec(), r.end as int);
            }
            let offset = view.offset_of_line(text, line);
            calc_horiz(view, text, offset)
        },
        Movement::RightOfLine => {
            let line = view.line_of_offset(text, r.end);
            let mut offset = text.len();
            let n_lines = view.line_of_offset(text, text.len());
            proof {
                lemma_line_of_spec(lines, text.len_spec(), r.end as int);
                lemma_line_of_text_len(lines, text.len_spec());
            }
            if line < n_lines {
                let next_line_offset = view.offset_of_line(text, line + 1);
                if let Some(prev) = text.prev_grapheme_offset(next_line_offset) {
                    offset = prev;
                }
            }
            calc_horiz(view, text, offset)
        },
        Movement::Up => vertical_motion(r, view, text, -1, modify),
        Movement::Down => vertical_motion(r, view, text, 1, modify),
        Movement::StartOfParagraph => {
            let offset = match text.prev_line_boundary(r.end) {
                Some(p) => {
                    proof {
                        lemma_prev_line_boundary_some(bytes, r.end as int, p as int);
                    }
                    p
                },
                None => {
                    proof {
                        lemma_prev_line_boundary_none(bytes, r.end as int);
                    }
                    0
                },
            };
            calc_horiz(view, text, offset)
        },
        Movement::EndOfParagraph => {
            let mut offset = r.end;
            match text.next_line_boundary(r.end) {
                Some(next_para_offset) => {
                    proof {
                        lemma_next_line_boundary_some(bytes, r.end as int, next_para_offset as int);
                    }
                    if text.is_line_boundary_at(next_para_offset) {
                        if let Some(eol) = text.prev_grapheme_offset(next_para_offset) {
                            offset = eol;
                        }
                    }
                },
                None => {
                    proof {
                        lemma_next_line_boundary_none(bytes, r.end as int);
                    }
                },
            }
            calc_horiz(view, text, offset)
        },
        Movement::UpPage => {
            let sh = scroll_height(view);
            vertical_motion(r, view, text, -sh, modify)
        },
        Movement::DownPage => {
            let sh = scroll_height(view);
            vertical_motion(r, view, text, sh, modify)
        },
        Movement::StartOfDocument => calc_horiz(view, text, 0),
        Movement::EndOfDocument => calc_horiz(view, text, text.len()),
    }
}

/// The region one movement builds from one source region: the computed
/// offset becomes the active point, the anchor stays put only when the
/// selection is being extended, and the affinity is reset.
pub open spec fn moved_region_spec(
    m: Movement,
    r: SelRegion,
    lines: Seq<usize>,
    s: Seq<u8>,
    height: nat,
    modify: bool,
) -> SelRegion {
    let mv = region_movement_spec(m, r, lines, s, height, modify);
    SelRegion {
        start: if modify {
            r.start
        } else {
            mv.0 as usize
        },
        end: mv.0 as usize,
        horiz: match mv.1 {
            Some(c) => Some(c as usize),
            None => None,
        },
        affinity: Affinity::Downstream,
    }
}

/// What moving a whole selection yields: each region moved independently,
/// the results inserted in order into a fresh selection.
pub open spec fn selection_movement_spec(
    m: Movement,
    regs: Seq<SelRegion>,
    lines: Seq<usize>,
    s: Seq<u8>,
    height: nat,
    modify: bool,
) -> Seq<SelRegion>
    decreases regs.len(),
{
    if regs.len() == 0 {
        Seq::empty()
    } else {
        add_region_spec(
            selection_movement_spec(m, regs.drop_last(), lines, s, height, modify),
            moved_region_spec(m, regs.last(), lines, s, height, modify),
        )
    }
}

/// Compute a new selection by applying a movement to an existing selection.
///
/// In a multi-region selection, this function applies the movement to each
/// region in the selection, and returns the union of the results.
///
/// If `modify` is `true`, the selections are modified, otherwise the results
/// of individual region movements become carets.
pub fn selection_movement(
    m: Movement,
    s: &Selection,
    view: &ViewLayout,
    text: &Text,
    modify: bool,
) -> (result: Selection)
    requires
        view.wf(text.len_spec()),
        s.valid(text.len_spec()),
    ensures
        result@ == selection_movement_spec(
            m,
            s@,
            view.line_starts@,
            text_bytes(text),
            view.height as nat,
            modify,
        ),
        result.wf(),
        result.valid(text.len_spec()),
        s@.len() == 0 ==> result@.len() == 0,
{
    let ghost lines = view.line_starts@;
    let ghost bytes = text_bytes(text);
    let mut result = Selection::new();
    let n = s.len();
    let mut i: usize = 0;
    proof {
        assert(s@.take(0) =~= Seq::<SelRegion>::empty());
    }
    while i < n
        invariant
            view.wf(text.len_spec()),
            s.valid(text.len_spec()),
            lines == view.line_starts@,
            bytes == text_bytes(text),
            n == s@.len(),
            i <= n,
            result@ == selection_movement_spec(m, s@.take(i as int), lines, bytes, view.height as nat, modify),
            result.wf(),
            result.valid(text.len_spec()),
        decreases n - i,
    {
        let r = s.get(i);
        let (offset, horiz) = region_movement(m, &r, view, text, modify);
        let new_region = SelRegion {
            start: if modify {
                r.start
            } else {
                offset
            },
            end: offset,
            horiz,
            affinity: Affinity::default(),
        };
        proof {
            assert(new_region == moved_region_spec(m, s@[i as int], lines, bytes, view.height as nat, modify));
            lemma_add_region_valid(result@, new_region, text.len_spec());
            assert(s@.take(i as int + 1).drop_last() =~= s@.take(i as int));
            assert(s@.take(i as int + 1).last() == s@[i as int]);
        }
        result.add_region(new_region);
        i = i + 1;
    }
    proof {
        assert(s@.take(n as int) =~= s@);
    }
    result
}

} // verus!
