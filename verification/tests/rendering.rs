//! The renderer's exact output bytes, line splitting, and the
//! cursor-position report parser.

use kilo::parse_cursor_report;
use kilo::split_lines;
use kilo::Editor;
use kilo::Pos;

fn editor(lines: &[&[u8]], w: usize, h: usize) -> Editor {
    let v: Vec<Vec<u8>> = lines.iter().map(|l| l.to_vec()).collect();
    let mut ed = Editor::from_lines(v);
    ed.set_window_size(w, h);
    ed
}

#[test]
fn refresh_emits_exact_control_codes() {
    let mut ed = editor(&[b"ab", b"cdef"], 3, 4);
    ed.refresh_screen();
    let expected = "\x1b[?25l\x1b[1;1H\x1b[Kab\r\n\x1b[Kcde\r\n\x1b[Kf\r\n\x1b[K~\x1b[1;1H\x1b[?25h";
    assert_eq!(ed.write_buf, expected.as_bytes());
}

#[test]
fn refresh_scenario_window_eighty_by_twenty_four() {
    // "hello", an empty line, then 100 bytes of "a": the rows are "hello",
    // an empty row, 80 "a"s, 20 "a"s, and 20 filler rows.
    let long = [b'a'; 100];
    let mut ed = editor(&[b"hello", b"", &long], 80, 24);
    ed.refresh_screen();
    let mut expected = String::from("\x1b[?25l\x1b[1;1H");
    expected.push_str("\x1b[Khello");
    expected.push_str("\r\n\x1b[K");
    expected.push_str(&format!("\r\n\x1b[K{}", "a".repeat(80)));
    expected.push_str(&format!("\r\n\x1b[K{}", "a".repeat(20)));
    for _ in 0..20 {
        expected.push_str("\r\n\x1b[K~");
    }
    expected.push_str("\x1b[1;1H\x1b[?25h");
    assert_eq!(ed.write_buf, expected.as_bytes());
}

#[test]
fn cursor_position_is_rendered_one_based() {
    let mut ed = editor(&[b"abcdef"], 3, 2);
    ed.cursor_right();
    ed.cursor_down();
    ed.refresh_screen();
    // Cursor at column 1, row 1 on screen: the reposition code says 2;2.
    let expected = "\x1b[?25l\x1b[1;1H\x1b[Kabc\r\n\x1b[Kdef\x1b[2;2H\x1b[?25h";
    assert_eq!(ed.write_buf, expected.as_bytes());
}

#[test]
fn empty_buffer_renders_one_empty_row_then_fillers() {
    let mut ed = editor(&[b""], 5, 3);
    ed.refresh_screen();
    let expected = "\x1b[?25l\x1b[1;1H\x1b[K\r\n\x1b[K~\r\n\x1b[K~\x1b[1;1H\x1b[?25h";
    assert_eq!(ed.write_buf, expected.as_bytes());
}

#[test]
fn exact_multiple_of_width_leaves_no_empty_row() {
    let mut ed = editor(&[b"abcdef"], 3, 3);
    ed.refresh_screen();
    let expected = "\x1b[?25l\x1b[1;1H\x1b[Kabc\r\n\x1b[Kdef\r\n\x1b[K~\x1b[1;1H\x1b[?25h";
    assert_eq!(ed.write_buf, expected.as_bytes());
}

#[test]
fn render_starts_at_the_scrolled_wrap_boundary() {
    // Scroll one wrap boundary into a 12-byte line at width 5: the top row
    // shows bytes 5..10.
    let long = *b"abcdefghijkl";
    let mut ed = editor(&[&long], 5, 2);
    ed.cursor_down();
    ed.cursor_down();
    assert_eq!(ed.line_offset_byte, 5);
    ed.clear_write_buf();
    ed.refresh_screen();
    let expected = "\x1b[?25l\x1b[1;1H\x1b[Kfghij\r\n\x1b[Kkl\x1b[2;1H\x1b[?25h";
    assert_eq!(ed.write_buf, expected.as_bytes());
}

#[test]
fn write_buf_is_cleared_not_grown_between_refreshes() {
    let mut ed = editor(&[b"ab"], 3, 2);
    ed.refresh_screen();
    let first = ed.write_buf.clone();
    ed.clear_write_buf();
    assert!(ed.write_buf.is_empty());
    ed.refresh_screen();
    assert_eq!(ed.write_buf, first);
}

#[test]
fn clear_screen_code() {
    let mut ed = Editor::new();
    ed.clear_screen();
    assert_eq!(ed.write_buf, b"\x1b[2J");
}

#[test]
fn split_on_line_feeds() {
    let r = split_lines(&b"a\nbb\n".to_vec());
    assert_eq!(r, vec![b"a".to_vec(), b"bb".to_vec(), b"".to_vec()]);
}

#[test]
fn split_without_trailing_line_feed() {
    let r = split_lines(&b"abc".to_vec());
    assert_eq!(r, vec![b"abc".to_vec()]);
}

#[test]
fn split_of_empty_input_is_one_empty_line() {
    let r = split_lines(&Vec::new());
    assert_eq!(r, vec![b"".to_vec()]);
}

#[test]
fn split_of_lone_line_feed_is_two_empty_lines() {
    let r = split_lines(&b"\n".to_vec());
    assert_eq!(r, vec![b"".to_vec(), b"".to_vec()]);
}

#[test]
fn report_parses_row_and_column_zero_based() {
    let r = parse_cursor_report(&b"\x1b[24;80".to_vec());
    assert_eq!(r, Some(Pos { row: 23, col: 79 }));
}

#[test]
fn report_skips_stray_bytes_before_the_escape() {
    let r = parse_cursor_report(&b"[6~\x1b[10;20".to_vec());
    assert_eq!(r, Some(Pos { row: 9, col: 19 }));
}

#[test]
fn report_without_escape_is_rejected() {
    assert_eq!(parse_cursor_report(&b"24;80".to_vec()), None);
}

#[test]
fn report_without_separator_is_rejected() {
    assert_eq!(parse_cursor_report(&b"\x1b[2480".to_vec()), None);
}

#[test]
fn report_with_separator_before_digits_is_rejected() {
    assert_eq!(parse_cursor_report(&b"\x1b[;80".to_vec()), None);
}

#[test]
fn report_with_junk_inside_the_row_number_is_rejected() {
    assert_eq!(parse_cursor_report(&b"\x1b[2x4;80".to_vec()), None);
}

#[test]
fn report_with_zero_coordinate_is_rejected() {
    assert_eq!(parse_cursor_report(&b"\x1b[0;80".to_vec()), None);
    assert_eq!(parse_cursor_report(&b"\x1b[24;0".to_vec()), None);
}

#[test]
fn report_with_trailing_junk_after_column_is_rejected() {
    assert_eq!(parse_cursor_report(&b"\x1b[24;80x".to_vec()), None);
}
