//! Properties of the movement engine, stated and proved over its
//! specification functions.

use vstd::prelude::*;

use crate::movement::Movement;
use crate::movement::moved_region_spec;
use crate::movement::region_movement_spec;
use crate::movement::vertical_active_spec;
use crate::movement::vertical_col_spec;
use crate::movement::vertical_motion_spec;
use crate::selection::SelRegion;
use crate::text::next_grapheme_of;
use crate::text::prev_grapheme_of;
use crate::view::col_of_spec;
use crate::view::lemma_line_of_spec;
use crate::view::lemma_line_of_unique;
use crate::view::line_end_spec;
use crate::view::line_of_spec;
use crate::view::lines_wf;

verus! {

/// Moving to the start or to the end of the document is idempotent: done
/// again from the region it produced, it yields the same offset.
pub proof fn lemma_document_edges_idempotent(
    m: Movement,
    r: SelRegion,
    lines: Seq<usize>,
    s: Seq<u8>,
    height: nat,
    modify: bool,
)
    requires
        m matches Movement::StartOfDocument || m matches Movement::EndOfDocument,
    ensures
        region_movement_spec(
            m,
            moved_region_spec(m, r, lines, s, height, false),
            lines,
            s,
            height,
            modify,
        ).0 == region_movement_spec(m, r, lines, s, height, modify).0,
{
}

/// From a caret, moving left and then right (and symmetrically right then
/// left) without extending returns to the original offset, whenever the
/// grapheme segmentation around the caret is symmetric.
pub proof fn lemma_left_right_round_trip(
    r: SelRegion,
    lines: Seq<usize>,
    s: Seq<u8>,
    height: nat,
)
    requires
        r.is_caret_spec(),
    ensures
        prev_grapheme_of(s, r.end as int) matches Some(p) && 0 <= p < r.end
            && next_grapheme_of(s, p) == Some(r.end as int)
            ==> region_movement_spec(
                Movement::Right,
                moved_region_spec(Movement::Left, r, lines, s, height, false),
                lines,
                s,
                height,
                false,
            ).0 == r.end as int,
        next_grapheme_of(s, r.end as int) matches Some(q) && r.end < q <= usize::MAX
            && prev_grapheme_of(s, q) == Some(r.end as int)
            ==> region_movement_spec(
                Movement::Left,
                moved_region_spec(Movement::Right, r, lines, s, height, false),
                lines,
                s,
                height,
                false,
            ).0 == r.end as int,
{
}

/// Vertical stickiness: a caret at column `c` on an interior line, moved
/// down one line and then up one line (neither move extending), returns to
/// its original offset at column `c`, whenever the line below can hold
/// column `c` without clamping.
pub proof fn lemma_vertical_stickiness(
    r: SelRegion,
    lines: Seq<usize>,
    s: Seq<u8>,
    height: nat,
    c: int,
)
    requires
        lines_wf(lines, s.len()),
        lines.len() <= usize::MAX,
        s.len() <= usize::MAX,
        r.is_caret_spec(),
        r.end <= s.len(),
        // the caret's effective column, cached or resolved, is `c`
        vertical_col_spec(r, lines, 1, false) == c,
        col_of_spec(lines, r.end as int) == c,
        // an interior line: a line follows the caret's one
        line_of_spec(lines, r.end as int) + 1 < lines.len(),
        // the line below holds column `c` without clamping
        lines[line_of_spec(lines, r.end as int) + 1] + c
            <= line_end_spec(lines, s.len(), line_of_spec(lines, r.end as int) + 1),
    ensures
        region_movement_spec(Movement::Down, r, lines, s, height, false)
            == (lines[line_of_spec(lines, r.end as int) + 1] + c, Some(c)),
        region_movement_spec(
            Movement::Up,
            moved_region_spec(Movement::Down, r, lines, s, height, false),
            lines,
            s,
            height,
            false,
        ) == (r.end as int, Some(c)),
{
    let tl = s.len();
    let line = line_of_spec(lines, r.end as int);
    lemma_line_of_spec(lines, tl, r.end as int);
    let down_offset = lines[line + 1] + c;
    assert(c >= 0);
    assert(vertical_motion_spec(r, lines, tl, 1, false) == (down_offset, Some(c))) by {
        assert(lines[line] < lines[line + 1]);
    }
    let r2 = moved_region_spec(Movement::Down, r, lines, s, height, false);
    assert(r2.end == down_offset as usize && r2.start == r2.end);
    assert(r2.horiz == Some(c as usize));
    assert(down_offset <= tl);
    lemma_line_of_unique(lines, tl, down_offset, line + 1);
    assert(vertical_motion_spec(r2, lines, tl, -1, false) == (r.end as int, Some(c))) by {
        assert(vertical_active_spec(r2, -1, false) == down_offset);
        assert(vertical_col_spec(r2, lines, -1, false) == c);
        assert(line_of_spec(lines, down_offset) == line + 1);
        assert(r.end as int == lines[line] + c);
        assert(r.end as int <= line_end_spec(lines, tl, line));
    }
}

/// Vertical motion clamps at the document's edges, whatever the magnitude of
/// the line delta: any upward motion from the first line yields offset 0 and
/// any downward motion from the last line yields the document's end, the
/// effective column kept unchanged in both cases. In particular a caret at
/// offset 0 or at the end stays put, and no magnitude can underflow past the
/// clamps.
pub proof fn lemma_vertical_clamp(
    r: SelRegion,
    lines: Seq<usize>,
    text_len: nat,
    line_delta: int,
    modify: bool,
)
    requires
        lines_wf(lines, text_len),
        lines.len() <= usize::MAX,
        r.valid(text_len),
    ensures
        line_delta < 0 && line_of_spec(lines, vertical_active_spec(r, line_delta, modify)) == 0
            ==> vertical_motion_spec(r, lines, text_len, line_delta, modify) == (
            0int,
            Some(vertical_col_spec(r, lines, line_delta, modify)),
        ),
        line_delta > 0 && line_of_spec(lines, vertical_active_spec(r, line_delta, modify))
            == lines.len() - 1 ==> vertical_motion_spec(r, lines, text_len, line_delta, modify)
            == (text_len as int, Some(vertical_col_spec(r, lines, line_delta, modify))),
{
}

/// A non-extending left or right movement on a non-caret region collapses it
/// to its min or max endpoint, without a grapheme step.
pub proof fn lemma_collapse(r: SelRegion, lines: Seq<usize>, s: Seq<u8>, height: nat)
    requires
        !r.is_caret_spec(),
    ensures
        region_movement_spec(Movement::Left, r, lines, s, height, false).0 == r.min_spec(),
        region_movement_spec(Movement::Right, r, lines, s, height, false).0 == r.max_spec(),
{
}

/// Extending left from a caret keeps the anchor at the caret's offset and
/// moves the active point to the previous grapheme boundary.
pub proof fn lemma_extend_left(r: SelRegion, lines: Seq<usize>, s: Seq<u8>, height: nat)
    requires
        r.is_caret_spec(),
        r.end > 0,
    ensures
        prev_grapheme_of(s, r.end as int) matches Some(p) && 0 <= p < r.end
            ==> moved_region_spec(Movement::Left, r, lines, s, height, true).start == r.end
                && moved_region_spec(Movement::Left, r, lines, s, height, true).end as int
                    == prev_grapheme_of(s, r.end as int)->Some_0,
{
}

/// The right end of the last line is the document's end; on any other line
/// it is the grapheme boundary just before the next line's start.
pub proof fn lemma_right_of_line(
    r: SelRegion,
    lines: Seq<usize>,
    s: Seq<u8>,
    height: nat,
    modify: bool,
)
    ensures
        line_of_spec(lines, r.end as int) == lines.len() - 1
            ==> region_movement_spec(Movement::RightOfLine, r, lines, s, height, modify).0
                == s.len(),
        line_of_spec(lines, r.end as int) < lines.len() - 1 && (prev_grapheme_of(
            s,
            lines[line_of_spec(lines, r.end as int) + 1] as int,
        ) matches Some(p)) ==> region_movement_spec(
            Movement::RightOfLine,
            r,
            lines,
            s,
            height,
            modify,
        ).0 == prev_grapheme_of(s, lines[line_of_spec(lines, r.end as int) + 1] as int)->Some_0,
{
}

} // verus!

