use edit_core::layout::{build_layout, LayoutParams, PixelRect};
use edit_core::selection::Selection;
use edit_core::text::TextBuffer;

fn chars(s: &str) -> Vec<char> {
    s.chars().collect()
}

fn params() -> LayoutParams {
    LayoutParams { wrap_cols: 80, char_width: 8, row_height: 16 }
}

fn layout_of(s: &str) -> edit_core::layout::Layout {
    build_layout(&TextBuffer::from_chars(chars(s)), params())
}

fn row_spans(l: &edit_core::layout::Layout) -> Vec<(usize, usize, bool)> {
    let mut v = Vec::new();
    for r in l.rows.iter() {
        v.push((r.start, r.end, r.newline));
    }
    v
}

#[test]
fn empty_text_has_one_empty_row() {
    let l = layout_of("");
    assert_eq!(row_spans(&l), vec![(0, 0, false)]);
}

#[test]
fn single_line_is_one_row() {
    let l = layout_of("abc");
    assert_eq!(row_spans(&l), vec![(0, 3, false)]);
}

#[test]
fn newline_splits_rows_and_belongs_to_the_row_it_ends() {
    let l = layout_of("ab\ncd");
    assert_eq!(row_spans(&l), vec![(0, 3, true), (3, 5, false)]);
}

#[test]
fn trailing_newline_adds_empty_final_row() {
    let l = layout_of("ab\n");
    assert_eq!(row_spans(&l), vec![(0, 3, true), (3, 3, false)]);
}

#[test]
fn long_line_wraps_at_the_wrap_limit() {
    let p = LayoutParams { wrap_cols: 4, char_width: 8, row_height: 16 };
    let l = build_layout(&TextBuffer::from_chars(chars("abcdef")), p);
    assert_eq!(row_spans(&l), vec![(0, 4, false), (4, 6, false)]);
}

#[test]
fn newline_just_past_the_wrap_limit_starts_its_own_row() {
    let p = LayoutParams { wrap_cols: 4, char_width: 8, row_height: 16 };
    let l = build_layout(&TextBuffer::from_chars(chars("abcd\nx")), p);
    assert_eq!(row_spans(&l), vec![(0, 4, false), (4, 5, true), (5, 6, false)]);
}

#[test]
fn monospace_x_offsets() {
    let l = layout_of("ab\ncd");
    assert_eq!(l.rows[0].xs, vec![0, 8, 16]);
    assert_eq!(l.rows[1].xs, vec![0, 8, 16]);
    assert_eq!(l.x_of_offset(1), 8);
    assert_eq!(l.x_of_offset(4), 8);
}

#[test]
fn row_begin_and_end() {
    let l = layout_of("hello\nworld");
    assert_eq!(l.row_begin(8), 6);
    assert_eq!(l.row_end(8), 11);
    assert_eq!(l.row_begin(2), 0);
    // the row end of a newline row sits before the newline
    assert_eq!(l.row_end(2), 5);
}

#[test]
fn up_from_first_row_goes_to_document_start() {
    let l = layout_of("hello\nworld");
    assert_eq!(l.offset_up(3), 0);
    assert_eq!(l.offset_up(0), 0);
}

#[test]
fn down_from_last_row_goes_to_document_end() {
    let l = layout_of("hello\nworld");
    assert_eq!(l.offset_down(8), 11);
    assert_eq!(l.offset_down(11), 11);
}

#[test]
fn down_lands_on_nearest_column_of_shorter_row() {
    // Two-row layout, caret at row 0 column 3 (x-pixel 24); the row
    // below has only two glyphs, so the caret lands on its last column
    // boundary (x-pixel 16), the nearest to 24 - not on column 3.
    let l = layout_of("abcdef\nab");
    assert_eq!(l.offset_down(3), 9);
}

#[test]
fn up_lands_on_nearest_column() {
    let l = layout_of("ab\nabcdef");
    // caret at row 1 column 5 (x 40); row 0 ends at column 2 (x 16)
    assert_eq!(l.offset_up(8), 2);
}

#[test]
fn vertical_move_keeps_column_between_equal_rows() {
    let l = layout_of("hello\nworld");
    assert_eq!(l.offset_down(2), 8);
    assert_eq!(l.offset_up(8), 2);
}

#[test]
fn pointer_position_picks_nearest_column() {
    let l = layout_of("ab\ncd");
    // row 0, x exactly on column 1
    assert_eq!(l.offset_of_pos(8, 0), 1);
    // x just right of the midpoint between columns 0 and 1
    assert_eq!(l.offset_of_pos(5, 0), 1);
    // x left of the midpoint
    assert_eq!(l.offset_of_pos(3, 0), 0);
    // second row
    assert_eq!(l.offset_of_pos(0, 16), 3);
    // y far below the last row clamps to the last row
    assert_eq!(l.offset_of_pos(16, 1000), 5);
}

#[test]
fn caret_rect_spans_its_row() {
    let l = layout_of("ab\ncd");
    let r = l.caret_rect(4);
    assert_eq!(r, PixelRect { left: 8, right: 8, top: 16, bottom: 32 });
}

#[test]
fn selection_rects_one_per_covered_row() {
    let l = layout_of("ab\ncd");
    // selection from offset 1 to offset 4, primary at the far end
    let rects = l.selection_rects(&Selection { primary: 4, secondary: 1 });
    assert_eq!(rects.len(), 2);
    // first row: from x(1) to the row's right edge, widened by half a
    // row height for the selected newline
    assert_eq!(rects[0], PixelRect { left: 8, right: 16 + 8, top: 0, bottom: 16 });
    // last row: from the left edge to x(4)
    assert_eq!(rects[1], PixelRect { left: 0, right: 8, top: 16, bottom: 32 });
}

#[test]
fn selection_within_one_row_is_one_rect() {
    let l = layout_of("hello");
    let rects = l.selection_rects(&Selection { primary: 1, secondary: 3 });
    assert_eq!(rects, vec![PixelRect { left: 8, right: 24, top: 0, bottom: 16 }]);
}

#[test]
fn empty_selection_has_no_rects() {
    let l = layout_of("ab\ncd");
    let rects = l.selection_rects(&Selection { primary: 2, secondary: 2 });
    assert_eq!(rects.len(), 0);
}
