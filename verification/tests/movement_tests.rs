//! Behavioural tests of the movement engine on concrete documents.

use movement::Affinity;
use movement::Movement;
use movement::SelRegion;
use movement::Selection;
use movement::Text;
use movement::ViewLayout;
use movement::region_movement;
use movement::scroll_height;
use movement::selection_movement;

fn caret(offset: usize) -> SelRegion {
    SelRegion { start: offset, end: offset, horiz: None, affinity: Affinity::Downstream }
}

fn caret_at_col(offset: usize, col: usize) -> SelRegion {
    SelRegion { start: offset, end: offset, horiz: Some(col), affinity: Affinity::Downstream }
}

fn span(start: usize, end: usize) -> SelRegion {
    SelRegion { start, end, horiz: None, affinity: Affinity::Downstream }
}

/// "hello\nworld": line 0 = [0, 6), line 1 = [6, 11].
fn hello_world() -> (Text, ViewLayout) {
    (Text::from_str("hello\nworld"), ViewLayout { line_starts: vec![0, 6], height: 10 })
}

#[test]
fn down_from_end_of_first_line() {
    let (text, view) = hello_world();
    let (offset, horiz) = region_movement(Movement::Down, &caret(5), &view, &text, false);
    assert_eq!(offset, 11);
    assert_eq!(horiz, Some(5));
}

#[test]
fn down_page_moves_by_scroll_height() {
    let mut doc = String::new();
    for i in 0..20 {
        if i > 0 {
            doc.push('\n');
        }
        doc.push_str(&format!("l{:02}", i));
    }
    let text = Text::from_str(&doc);
    let starts: Vec<usize> = (0..20).map(|i| 4 * i).collect();
    let view = ViewLayout { line_starts: starts, height: 10 };
    assert_eq!(scroll_height(&view), 8);
    let (offset, horiz) = region_movement(Movement::DownPage, &caret(1), &view, &text, false);
    assert_eq!(offset, 4 * 8 + 1);
    assert_eq!(horiz, Some(1));
}

#[test]
fn empty_selection_stays_empty() {
    let (text, view) = hello_world();
    let sel = Selection::new();
    let out = selection_movement(Movement::Down, &sel, &view, &text, false);
    assert_eq!(out.len(), 0);
}

#[test]
fn document_edges_are_idempotent() {
    let (text, view) = hello_world();
    let (first, _) = region_movement(Movement::StartOfDocument, &caret(7), &view, &text, false);
    assert_eq!(first, 0);
    let (again, _) = region_movement(Movement::StartOfDocument, &caret(first), &view, &text, false);
    assert_eq!(again, first);
    let (last, _) = region_movement(Movement::EndOfDocument, &caret(7), &view, &text, false);
    assert_eq!(last, 11);
    let (again, _) = region_movement(Movement::EndOfDocument, &caret(last), &view, &text, false);
    assert_eq!(again, last);
}

#[test]
fn left_then_right_round_trip() {
    let (text, view) = hello_world();
    let (left, _) = region_movement(Movement::Left, &caret(3), &view, &text, false);
    assert_eq!(left, 2);
    let (back, _) = region_movement(Movement::Right, &caret(left), &view, &text, false);
    assert_eq!(back, 3);
}

#[test]
fn left_right_stay_put_at_document_edges() {
    let (text, view) = hello_world();
    let (offset, horiz) = region_movement(Movement::Left, &caret_at_col(0, 7), &view, &text, false);
    assert_eq!(offset, 0);
    assert_eq!(horiz, Some(7));
    let (offset, horiz) = region_movement(Movement::Right, &caret_at_col(11, 7), &view, &text, false);
    assert_eq!(offset, 11);
    assert_eq!(horiz, Some(7));
}

#[test]
fn nonextending_left_right_collapse_without_grapheme_step() {
    let (text, view) = hello_world();
    let (left, _) = region_movement(Movement::Left, &span(2, 7), &view, &text, false);
    assert_eq!(left, 2);
    let (right, _) = region_movement(Movement::Right, &span(2, 7), &view, &text, false);
    assert_eq!(right, 7);
    let out = selection_movement(Movement::Left, &singleton(span(2, 7)), &view, &text, false);
    assert_eq!(out.len(), 1);
    assert_eq!(out.get(0).start, 2);
    assert_eq!(out.get(0).end, 2);
}

#[test]
fn extending_left_anchors_the_caret() {
    let (text, view) = hello_world();
    let out = selection_movement(Movement::Left, &singleton(caret(3)), &view, &text, true);
    assert_eq!(out.len(), 1);
    assert_eq!(out.get(0).start, 3);
    assert_eq!(out.get(0).end, 2);
}

#[test]
fn right_of_line_excludes_the_terminator() {
    let (text, view) = hello_world();
    let (offset, _) = region_movement(Movement::RightOfLine, &caret(2), &view, &text, false);
    assert_eq!(offset, 5);
    let (offset, _) = region_movement(Movement::RightOfLine, &caret(8), &view, &text, false);
    assert_eq!(offset, 11);
}

#[test]
fn left_of_line_is_the_line_start() {
    let (text, view) = hello_world();
    let (offset, _) = region_movement(Movement::LeftOfLine, &caret(8), &view, &text, false);
    assert_eq!(offset, 6);
    let (offset, _) = region_movement(Movement::LeftOfLine, &caret(3), &view, &text, false);
    assert_eq!(offset, 0);
}

#[test]
fn end_of_paragraph_steps_back_from_the_boundary() {
    let (text, view) = hello_world();
    let (offset, _) = region_movement(Movement::EndOfParagraph, &caret(2), &view, &text, false);
    assert_eq!(offset, 5);
    let (offset, _) = region_movement(Movement::EndOfParagraph, &caret(8), &view, &text, false);
    assert_eq!(offset, 8);
}

#[test]
fn start_of_paragraph_is_the_previous_boundary() {
    let (text, view) = hello_world();
    let (offset, _) = region_movement(Movement::StartOfParagraph, &caret(8), &view, &text, false);
    assert_eq!(offset, 6);
    let (offset, _) = region_movement(Movement::StartOfParagraph, &caret(3), &view, &text, false);
    assert_eq!(offset, 0);
}

#[test]
fn vertical_clamps_at_document_edges() {
    let (text, view) = hello_world();
    let (offset, horiz) = region_movement(Movement::Up, &caret(2), &view, &text, false);
    assert_eq!(offset, 0);
    assert_eq!(horiz, Some(2));
    let (offset, horiz) = region_movement(Movement::Down, &caret(8), &view, &text, false);
    assert_eq!(offset, 11);
    assert_eq!(horiz, Some(2));
}

#[test]
fn huge_page_heights_do_not_underflow() {
    let (text, view) = hello_world();
    let big_view = ViewLayout { line_starts: vec![0, 6], height: 1_000_000 };
    let (offset, _) = region_movement(Movement::UpPage, &caret(8), &big_view, &text, false);
    assert_eq!(offset, 0);
    let (offset, _) = region_movement(Movement::DownPage, &caret(2), &view, &text, false);
    assert_eq!(offset, 11);
}

#[test]
fn vertical_motion_is_sticky() {
    let (text, view) = hello_world();
    let (down, down_col) = region_movement(Movement::Down, &caret(5), &view, &text, false);
    assert_eq!((down, down_col), (11, Some(5)));
    let after_down = SelRegion { start: down, end: down, horiz: down_col, affinity: Affinity::Downstream };
    let (up, up_col) = region_movement(Movement::Up, &after_down, &view, &text, false);
    assert_eq!((up, up_col), (5, Some(5)));
}

#[test]
fn word_movement_stops_at_class_changes() {
    let text = Text::from_str("hello world, foo");
    let view = ViewLayout { line_starts: vec![0], height: 10 };
    let (offset, _) = region_movement(Movement::RightWord, &caret(0), &view, &text, false);
    assert_eq!(offset, 5);
    let (offset, _) = region_movement(Movement::RightWord, &caret(5), &view, &text, false);
    assert_eq!(offset, 11);
    let (offset, _) = region_movement(Movement::LeftWord, &caret(16), &view, &text, false);
    assert_eq!(offset, 13);
    let (offset, _) = region_movement(Movement::LeftWord, &caret(5), &view, &text, false);
    assert_eq!(offset, 0);
}

#[test]
fn word_movement_defaults_to_document_edges() {
    let text = Text::from_str("  hi  ");
    let view = ViewLayout { line_starts: vec![0], height: 10 };
    let (offset, _) = region_movement(Movement::LeftWord, &caret(1), &view, &text, false);
    assert_eq!(offset, 0);
    let (offset, _) = region_movement(Movement::RightWord, &caret(4), &view, &text, false);
    assert_eq!(offset, 6);
}

#[test]
fn movements_on_an_empty_document_stay_at_zero() {
    let text = Text::from_str("");
    let view = ViewLayout { line_starts: vec![0], height: 5 };
    let (offset, _) = region_movement(Movement::EndOfDocument, &caret(0), &view, &text, false);
    assert_eq!(offset, 0);
    let (offset, _) = region_movement(Movement::Left, &caret(0), &view, &text, false);
    assert_eq!(offset, 0);
    let (offset, _) = region_movement(Movement::RightWord, &caret(0), &view, &text, false);
    assert_eq!(offset, 0);
    let (offset, horiz) = region_movement(Movement::Up, &caret(0), &view, &text, false);
    assert_eq!((offset, horiz), (0, Some(0)));
}

#[test]
fn multi_cursor_movement_moves_each_region() {
    let (text, view) = hello_world();
    let mut sel = Selection::new();
    sel.add_region(caret(1));
    sel.add_region(caret(7));
    let out = selection_movement(Movement::Down, &sel, &view, &text, false);
    assert_eq!(out.len(), 2);
    assert_eq!(out.get(0).end, 7);
    assert_eq!(out.get(1).end, 11);
}

#[test]
fn colliding_cursors_merge() {
    let (text, view) = hello_world();
    let mut sel = Selection::new();
    sel.add_region(caret(9));
    sel.add_region(caret(10));
    assert_eq!(sel.len(), 2);
    let out = selection_movement(Movement::EndOfDocument, &sel, &view, &text, false);
    assert_eq!(out.len(), 1);
    assert_eq!(out.get(0).end, 11);
}

#[test]
fn add_region_keeps_order_and_merges_overlaps() {
    let mut sel = Selection::new();
    sel.add_region(span(5, 6));
    sel.add_region(span(0, 1));
    assert_eq!(sel.len(), 2);
    assert_eq!(sel.get(0).start, 0);
    assert_eq!(sel.get(1).start, 5);
    sel.add_region(span(1, 5));
    assert_eq!(sel.len(), 1);
    assert_eq!(sel.get(0).start, 0);
    assert_eq!(sel.get(0).end, 6);
}

fn singleton(region: SelRegion) -> Selection {
    let mut sel = Selection::new();
    sel.add_region(region);
    sel
}
