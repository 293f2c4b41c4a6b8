//! Laws of the model, proved once and for all states: how many rows a line
//! renders to, that a horizontal move is undone by its inverse, how repeated
//! vertical moves walk the buffer, how the end-of-line flag answers vertical
//! and horizontal moves, and when paging down and back leaves the viewport
//! where it was.

use vstd::prelude::*;
use vstd::math::max;
use vstd::math::min;
use vstd::arithmetic::div_mod::lemma_basic_div;
use vstd::arithmetic::div_mod::lemma_div_plus_one;
use crate::editor::lemma_col_facts;
use crate::editor::lemma_down_wf;
use crate::editor::lemma_right_wf;
use crate::editor::lemma_up_wf;
use crate::editor::EdState;
use crate::render::wrap_from;
use crate::wrap::last_col;
use crate::wrap::last_row_start;
use crate::wrap::lemma_land_short_row;
use crate::wrap::lemma_last_row_start;
use crate::wrap::rows_of_line;

verus! {

proof fn lemma_wrap_from_len(line: Seq<u8>, from: int, w: int)
    requires
        w >= 1,
        0 <= from <= line.len(),
    ensures
        wrap_from(line, from, w).len() == rows_of_line(line.len() - from, w),
    decreases line.len() - from,
{
    if from >= line.len() {
    } else if line.len() - from <= w {
        lemma_basic_div(line.len() - from - 1, w);
    } else {
        lemma_wrap_from_len(line, from + w, w);
        lemma_div_plus_one(line.len() - from - w - 1, w);
    }
}

/// A line of `L` bytes rendered at width `W > 0` occupies exactly
/// `max(1, ceil(L / W))` rows, the last possibly shorter.
pub proof fn lemma_rendered_row_count(line: Seq<u8>, w: int)
    requires
        w >= 1,
    ensures
        wrap_from(line, 0, w).len() == max(1, (line.len() + w - 1) / w),
{
    lemma_wrap_from_len(line, 0, w);
    crate::wrap::lemma_rows_of_line(line.len() as int, w);
}

/// CursorRight then CursorLeft restores the exact prior state — position,
/// line, byte and end-of-line flag — whenever the right move was not blocked
/// at a boundary. (When it was blocked it was a no-op, and a following left
/// move stands on its own.) The one further exception: a set end-of-line flag
/// one column short of the row-end column, which the left move would clear.
pub proof fn lemma_right_then_left(s: EdState)
    requires
        s.wf(),
        s.byte + 1 < s.cur_line_len(),
        s.col + 1 < s.w,
        !(s.at_eol && s.col + 1 == s.end_of_row_spec()),
    ensures
        s.right_spec().left_spec() == s,
{
    lemma_col_facts(s);
    lemma_right_wf(s);
    let s1 = s.right_spec();
    assert(s1.end_of_row_spec() == s.end_of_row_spec());
    assert(s1.left_spec() =~= s);
}

/// A vertical move that lands on the next line's first row, with that row
/// shorter than the column the cursor came from, leaves the cursor on the
/// row's last occupied column with the end-of-line flag set.
pub proof fn lemma_down_to_short_row_sets_eol(s: EdState)
    requires
        s.wf(),
        s.bytes_left_in_line() == 0,
        s.line + 1 < s.line_count(),
        s.col > last_col(min(s.lines[s.line + 1].len() as int, s.w)),
    ensures
        s.down_spec().at_eol,
        s.down_spec().col == last_col(min(s.lines[s.line + 1].len() as int, s.w)),
{
    lemma_land_short_row(s.at_eol, s.col, min(s.lines[s.line + 1].len() as int, s.w));
}

/// The same for a move down onto the next wrap row of the cursor's own line.
pub proof fn lemma_down_within_line_to_short_row_sets_eol(s: EdState)
    requires
        s.wf(),
        s.bytes_left_in_line() > 0,
        s.col > last_col(min(s.bytes_left_in_line(), s.w)),
    ensures
        s.down_spec().at_eol,
        s.down_spec().col == last_col(min(s.bytes_left_in_line(), s.w)),
{
    lemma_land_short_row(s.at_eol, s.col, min(s.bytes_left_in_line(), s.w));
}

/// The same for a move up onto the previous line's last rendered row.
pub proof fn lemma_up_to_short_row_sets_eol(s: EdState)
    requires
        s.wf(),
        s.byte < s.w,
        s.line > 0,
        s.col > last_col(
            s.lines[s.line - 1].len() - last_row_start(s.lines[s.line - 1].len() as int, s.w),
        ),
    ensures
        s.up_spec().at_eol,
        s.up_spec().col == last_col(
            s.lines[s.line - 1].len() - last_row_start(s.lines[s.line - 1].len() as int, s.w),
        ),
{
    lemma_land_short_row(
        s.at_eol,
        s.col,
        s.lines[s.line - 1].len() - last_row_start(s.lines[s.line - 1].len() as int, s.w),
    );
}

/// CursorLeft away from the row's last column clears the end-of-line flag.
pub proof fn lemma_left_from_row_end_clears_eol(s: EdState)
    requires
        s.wf(),
        s.col > 0,
        s.col == s.end_of_row_spec(),
    ensures
        !s.left_spec().at_eol,
{
}

proof fn lemma_downs_single_rows(s: EdState, m: nat)
    requires
        s.wf(),
        forall|i: int| 0 <= i < s.line_count() ==> #[trigger] s.lines[i].len() <= s.w,
        s.byte == 0,
        s.col == 0,
        !s.at_eol,
        s.line + m < s.line_count(),
    ensures
        s.downs_spec(m).wf(),
        s.downs_spec(m).lines == s.lines,
        s.downs_spec(m).w == s.w,
        s.downs_spec(m).line == s.line + m,
        s.downs_spec(m).byte == 0,
        s.downs_spec(m).col == 0,
        !s.downs_spec(m).at_eol,
    decreases m,
{
    if m > 0 {
        lemma_downs_single_rows(s, (m - 1) as nat);
        let t = s.downs_spec((m - 1) as nat);
        lemma_down_wf(t);
        lemma_col_facts(t);
        assert(t.bytes_left_in_line() == 0);
        assert(t.down_spec().line == t.line + 1);
    }
}

/// With every line fitting in one row, CursorDown applied `N - 1` times from
/// the first line's first byte reaches the last of the `N` lines, at column
/// 0.
pub proof fn lemma_downs_reach_last_line(s: EdState)
    requires
        s.wf(),
        forall|i: int| 0 <= i < s.line_count() ==> #[trigger] s.lines[i].len() <= s.w,
        s.line == 0,
        s.byte == 0,
        s.col == 0,
        !s.at_eol,
    ensures
        s.downs_spec((s.line_count() - 1) as nat).line == s.line_count() - 1,
        s.downs_spec((s.line_count() - 1) as nat).col == 0,
{
    lemma_downs_single_rows(s, (s.line_count() - 1) as nat);
}

proof fn lemma_downs_keep_offset(s: EdState, m: nat)
    requires
        s.wf(),
        s.row + m < s.h,
    ensures
        s.downs_spec(m).wf(),
        s.downs_spec(m).line_offset == s.line_offset,
        s.downs_spec(m).line_offset_byte == s.line_offset_byte,
        s.downs_spec(m).row <= s.row + m,
        s.downs_spec(m).h == s.h,
        s.downs_spec(m).w == s.w,
        s.downs_spec(m).lines == s.lines,
    decreases m,
{
    if m > 0 {
        lemma_downs_keep_offset(s, (m - 1) as nat);
        let t = s.downs_spec((m - 1) as nat);
        lemma_down_wf(t);
        assert(t.row + 1 != t.h);
    }
}

proof fn lemma_ups_keep_offset(s: EdState, m: nat)
    requires
        s.wf(),
        m <= s.row,
    ensures
        s.ups_spec(m).wf(),
        s.ups_spec(m).line_offset == s.line_offset,
        s.ups_spec(m).line_offset_byte == s.line_offset_byte,
        s.ups_spec(m).row >= s.row - m,
        s.ups_spec(m).h == s.h,
    decreases m,
{
    if m > 0 {
        lemma_ups_keep_offset(s, (m - 1) as nat);
        let t = s.ups_spec((m - 1) as nat);
        lemma_up_wf(t);
        assert(t.row != 0);
    }
}

/// PageDown followed at once by PageUp, from the top of a buffer with fewer
/// lines than the window has rows, leaves the viewport at the top. (With at
/// least a window's worth of single-row lines, PageDown scrolls once more
/// than the following PageUp scrolls back, so the viewport does move: the
/// bound on the line count is needed.)
pub proof fn lemma_page_down_then_up_stays_top(s: EdState)
    requires
        s.wf(),
        s.line_offset == 0,
        s.line_offset_byte == 0,
        s.line_count() < s.h,
    ensures
        s.page_down_spec().page_up_spec().line_offset == 0,
        s.page_down_spec().page_up_spec().line_offset_byte == 0,
{
    let d = s.page_down_count();
    if s.line_count() > s.row {
        assert(d == min(s.h, s.line_count() - s.row));
        assert(s.row + d < s.h);
    } else {
        assert(d == 0);
    }
    lemma_downs_keep_offset(s, d as nat);
    let t = s.page_down_spec();
    let u = t.page_up_count();
    assert(u == t.row);
    lemma_ups_keep_offset(t, u as nat);
}

/// The companion for a buffer whose first line wraps: from the very top, the
/// one scroll a PageDown can trigger moves the render origin to the first
/// line's next wrap boundary, so the first visible line stays the first line
/// and PageUp leaves it there.
pub proof fn lemma_page_down_then_up_keeps_first_line(s: EdState)
    requires
        s.wf(),
        s.line_offset == 0,
        s.line_offset_byte == 0,
        s.row == 0,
        s.lines[0].len() > s.w,
    ensures
        s.page_down_spec().page_up_spec().line_offset == 0,
{
    let d = s.page_down_count();
    assert(0 <= d <= s.h);
    if d == 0 {
        lemma_ups_keep_offset(s, s.page_up_count() as nat);
    } else {
        let m = (d - 1) as nat;
        lemma_downs_keep_offset(s, m);
        let t = s.downs_spec(m);
        lemma_down_wf(t);
        let t2 = t.down_spec();
        assert(s.page_down_spec() == s.downs_spec(d as nat));
        assert(s.downs_spec(d as nat) == t.down_spec());
        // The last step may scroll, but from the top of a wrapped line the
        // scroll only moves the wrap offset; the line offset stays put.
        assert(t.scroll_down_spec().line_offset == 0);
        assert(t2.line_offset == 0);
        let u = t2.page_up_count();
        assert(u == t2.row);
        lemma_ups_keep_offset(t2, u as nat);
    }
}

} // verus!
