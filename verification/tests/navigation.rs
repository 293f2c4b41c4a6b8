//! Cursor and viewport navigation.

use kilo::Decoded;
use kilo::Editor;
use kilo::Key;

fn editor(lines: &[&[u8]], w: usize, h: usize) -> Editor {
    let v: Vec<Vec<u8>> = lines.iter().map(|l| l.to_vec()).collect();
    let mut ed = Editor::from_lines(v);
    ed.set_window_size(w, h);
    ed
}

fn cursor_tuple(ed: &Editor) -> (usize, usize, usize, usize, bool) {
    (
        ed.cursor.pos.col,
        ed.cursor.pos.row,
        ed.cursor.line,
        ed.cursor.byte,
        ed.cursor.is_at_eol,
    )
}

#[test]
fn new_editor_is_zeroed_with_one_blank_line() {
    let ed = Editor::new();
    assert_eq!(ed.lines.len(), 1);
    assert!(ed.lines[0].is_empty());
    assert_eq!(cursor_tuple(&ed), (0, 0, 0, 0, false));
    assert_eq!(ed.line_offset, 0);
    assert_eq!(ed.line_offset_byte, 0);
    assert_eq!(ed.window_width, 0);
    assert_eq!(ed.window_height, 0);
}

#[test]
fn three_downs_cross_empty_line_and_wrap() {
    // Window 80 by 24; "hello", an empty line, then 100 bytes of "a".
    let long = [b'a'; 100];
    let mut ed = editor(&[b"hello", b"", &long], 80, 24);
    ed.cursor_down();
    ed.cursor_down();
    ed.cursor_down();
    assert_eq!(ed.cursor.line, 2);
    assert_eq!(ed.cursor.pos.row, 3);
    assert_eq!(ed.cursor.pos.col, 0);
    assert_eq!(ed.cursor.byte, 80);
}

#[test]
fn right_then_left_restores_state() {
    let mut ed = editor(&[b"hello"], 80, 24);
    ed.cursor_right();
    let before = cursor_tuple(&ed);
    ed.cursor_right();
    ed.cursor_left();
    assert_eq!(cursor_tuple(&ed), before);
}

#[test]
fn right_at_line_end_is_a_no_op() {
    let mut ed = editor(&[b"ab"], 80, 24);
    ed.cursor_right();
    let before = cursor_tuple(&ed);
    ed.cursor_right();
    assert_eq!(cursor_tuple(&ed), before);
}

#[test]
fn left_at_column_zero_is_a_no_op() {
    let mut ed = editor(&[b"ab"], 80, 24);
    let before = cursor_tuple(&ed);
    ed.cursor_left();
    assert_eq!(cursor_tuple(&ed), before);
}

#[test]
fn right_reaching_row_end_sets_eol_and_left_clears_it() {
    let mut ed = editor(&[b"abc"], 80, 24);
    ed.cursor_right();
    assert!(!ed.cursor.is_at_eol);
    ed.cursor_right();
    assert!(ed.cursor.is_at_eol);
    ed.cursor_left();
    assert!(!ed.cursor.is_at_eol);
}

#[test]
fn downs_over_single_row_lines_reach_last_line() {
    // Five single-row lines; four downs land on the last one at column 0.
    let mut ed = editor(&[b"a", b"bb", b"c", b"dd", b"e"], 10, 24);
    for _ in 0..4 {
        ed.cursor_down();
    }
    assert_eq!(ed.cursor.line, 4);
    assert_eq!(ed.cursor.pos.col, 0);
}

#[test]
fn down_at_bottom_row_scrolls_instead_of_moving() {
    // Height 3: the third down stands on the last row and scrolls.
    let mut ed = editor(&[b"a", b"b", b"c", b"d", b"e"], 10, 3);
    for _ in 0..4 {
        ed.cursor_down();
    }
    assert_eq!(ed.cursor.line, 4);
    assert_eq!(ed.cursor.pos.row, 2);
    assert_eq!(ed.line_offset, 2);
}

#[test]
fn down_within_wrapped_line_advances_one_row() {
    let long = [b'x'; 12];
    let mut ed = editor(&[&long], 5, 10);
    ed.cursor_down();
    assert_eq!(cursor_tuple(&ed), (0, 1, 0, 5, false));
    ed.cursor_down();
    assert_eq!(cursor_tuple(&ed), (0, 2, 0, 10, false));
    // The last row of the only line: nothing below, a further down changes
    // nothing.
    let before = cursor_tuple(&ed);
    ed.cursor_down();
    assert_eq!(cursor_tuple(&ed), before);
}

#[test]
fn up_within_wrapped_line_goes_back_one_row() {
    let long = [b'x'; 12];
    let mut ed = editor(&[&long], 5, 10);
    ed.cursor_down();
    ed.cursor_up();
    assert_eq!(cursor_tuple(&ed), (0, 0, 0, 0, false));
}

#[test]
fn up_to_previous_line_lands_on_its_last_row() {
    // Line 0 wraps into rows of 5, 5 and 2 bytes; coming up from line 1 the
    // cursor lands on the 2-byte row.
    let long = [b'x'; 12];
    let mut ed = editor(&[&long, b"yyy"], 5, 10);
    for _ in 0..3 {
        ed.cursor_down();
    }
    assert_eq!(ed.cursor.line, 1);
    ed.cursor_up();
    assert_eq!(ed.cursor.line, 0);
    assert_eq!(ed.cursor.byte, 10);
    assert_eq!(ed.cursor.pos.col, 0);
}

#[test]
fn exact_multiple_wraps_without_trailing_empty_row() {
    // A 10-byte line at width 5 is two full rows: one down reaches the second
    // row, a second down moves to the next line.
    let line = [b'x'; 10];
    let mut ed = editor(&[&line, b"z"], 5, 10);
    ed.cursor_down();
    assert_eq!((ed.cursor.line, ed.cursor.byte), (0, 5));
    ed.cursor_down();
    assert_eq!((ed.cursor.line, ed.cursor.byte), (1, 0));
}

#[test]
fn vertical_move_onto_shorter_row_clamps_and_sets_eol() {
    // From column 4 of "abcdef" down onto "ab": the landing row is shorter
    // than the column, so the cursor snaps to its end with the flag set.
    let mut ed = editor(&[b"abcdef", b"ab"], 10, 24);
    for _ in 0..4 {
        ed.cursor_right();
    }
    assert_eq!(ed.cursor.pos.col, 4);
    assert!(!ed.cursor.is_at_eol);
    ed.cursor_down();
    assert_eq!(ed.cursor.line, 1);
    assert_eq!(ed.cursor.pos.col, 1);
    assert!(ed.cursor.is_at_eol);
}

#[test]
fn eol_flag_rides_along_row_ends() {
    // With the flag set, vertical moves land on each row's last column.
    let mut ed = editor(&[b"abc", b"defgh", b""], 10, 24);
    ed.cursor_right();
    ed.cursor_right();
    assert!(ed.cursor.is_at_eol);
    ed.cursor_down();
    assert_eq!((ed.cursor.line, ed.cursor.pos.col), (1, 4));
    assert!(ed.cursor.is_at_eol);
    ed.cursor_down();
    assert_eq!((ed.cursor.line, ed.cursor.pos.col, ed.cursor.byte), (2, 0, 0));
}

#[test]
fn up_at_top_of_buffer_is_a_no_op() {
    let mut ed = editor(&[b"ab", b"cd"], 10, 24);
    let before = cursor_tuple(&ed);
    ed.cursor_up();
    assert_eq!(cursor_tuple(&ed), before);
    assert_eq!(ed.line_offset, 0);
}

#[test]
fn empty_line_lands_at_byte_zero() {
    let mut ed = editor(&[b"abcd", b"", b"xy"], 10, 24);
    ed.cursor_right();
    ed.cursor_right();
    ed.cursor_down();
    assert_eq!(cursor_tuple(&ed), (0, 1, 1, 0, true));
    ed.cursor_down();
    assert_eq!((ed.cursor.line, ed.cursor.pos.col, ed.cursor.byte), (2, 1, 1));
}

#[test]
fn page_down_then_page_up_returns_viewport_to_top() {
    // Fewer lines than window rows: the viewport never leaves the top.
    let mut ed = editor(&[b"a", b"b", b"c"], 10, 10);
    ed.page_down();
    assert_eq!(ed.cursor.line, 2);
    assert_eq!(ed.line_offset, 0);
    ed.page_up();
    assert_eq!(ed.cursor.line, 0);
    assert_eq!(ed.line_offset, 0);
    assert_eq!(ed.line_offset_byte, 0);
}

#[test]
fn page_down_stops_at_last_line() {
    let mut ed = editor(&[b"a", b"b", b"c"], 10, 24);
    ed.page_down();
    assert_eq!(ed.cursor.line, 2);
    ed.page_down();
    assert_eq!(ed.cursor.line, 2);
}

#[test]
fn home_returns_to_buffer_start() {
    let mut ed = editor(&[b"abc", b"def", b"ghi"], 10, 2);
    ed.cursor_down();
    ed.cursor_down();
    ed.cursor_right();
    ed.handle_esc_seq_key(Key::Home);
    assert_eq!(cursor_tuple(&ed), (0, 0, 0, 0, false));
    assert_eq!(ed.line_offset, 0);
    assert_eq!(ed.line_offset_byte, 0);
}

#[test]
fn end_jumps_to_last_screen() {
    let mut ed = editor(&[b"a", b"b", b"c", b"d", b"e"], 10, 3);
    ed.handle_esc_seq_key(Key::End);
    assert_eq!(ed.line_offset, 2);
    assert_eq!(ed.cursor.pos.row, 2);
    assert_eq!(ed.cursor.pos.col, 0);
    assert_eq!(ed.cursor.line, 4);
}

#[test]
fn end_with_short_buffer_keeps_offset_zero() {
    let mut ed = editor(&[b"a", b"b"], 10, 24);
    ed.handle_esc_seq_key(Key::End);
    assert_eq!(ed.line_offset, 0);
    assert_eq!(ed.cursor.pos.row, 23);
    assert_eq!(ed.cursor.line, 1);
}

#[test]
fn scroll_down_walks_wrap_boundaries_of_the_top_line() {
    let long = [b'x'; 12];
    let mut ed = editor(&[&long, b"end"], 5, 2);
    // Two downs: the second stands on the last row and scrolls one wrap
    // boundary into the top line.
    ed.cursor_down();
    ed.cursor_down();
    assert_eq!(ed.line_offset, 0);
    assert_eq!(ed.line_offset_byte, 5);
    assert_eq!(ed.cursor.byte, 10);
    ed.cursor_down();
    assert_eq!(ed.line_offset_byte, 10);
    assert_eq!(ed.cursor.line, 1);
}

#[test]
fn keys_dispatch_through_handle_key() {
    let mut ed = editor(&[b"ab", b"cd"], 10, 24);
    ed.handle_key(Decoded::Key(Key::ArrowDown));
    assert_eq!(ed.cursor.line, 1);
    ed.handle_key(Decoded::Key(Key::ArrowUp));
    assert_eq!(ed.cursor.line, 0);
    ed.handle_key(Decoded::Key(Key::ArrowRight));
    assert_eq!(ed.cursor.pos.col, 1);
    ed.handle_key(Decoded::Key(Key::ArrowLeft));
    assert_eq!(ed.cursor.pos.col, 0);
    // Plain input and unrecognized sequences change nothing.
    let before = cursor_tuple(&ed);
    ed.handle_key(Decoded::Plain(b'q'));
    ed.handle_key(Decoded::Unrecognized);
    ed.handle_key(Decoded::Pending);
    assert_eq!(cursor_tuple(&ed), before);
}

#[test]
fn resize_renormalizes_column_and_row() {
    let long = [b'x'; 12];
    let mut ed = editor(&[&long], 5, 4);
    ed.cursor_down();
    assert_eq!((ed.cursor.byte, ed.cursor.pos.col), (5, 0));
    // The same byte at width 4 stands at column 1 of its wrap row.
    ed.set_window_size(4, 2);
    assert_eq!(ed.cursor.pos.col, 1);
    assert_eq!(ed.cursor.pos.row, 1);
}
