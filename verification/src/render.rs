//! The renderer.
//!
//! One refresh appends to the editor's write buffer, in order: the
//! hide-cursor code, a cursor-home code, one clear-row code and row content
//! per window row (text rows first, computed by re-wrapping the visible lines
//! from the render origin, then `~` filler rows), with a line break between
//! consecutive rows and none after the last, a cursor-reposition code, and
//! the show-cursor code. The buffer is flushed outside in one write and
//! cleared, not reallocated.

use vstd::prelude::*;
use vstd::math::min;
use crate::editor::EdState;
use crate::editor::Editor;
use crate::editor::Pos;

verus! {

/// `ESC [ ? 2 5 l`: hide the cursor.
pub open spec fn esc_hide() -> Seq<u8> {
    seq![27u8, 91u8, 63u8, 50u8, 53u8, 108u8]
}

/// `ESC [ ? 2 5 h`: show the cursor.
pub open spec fn esc_show() -> Seq<u8> {
    seq![27u8, 91u8, 63u8, 50u8, 53u8, 104u8]
}

/// `ESC [ K`: clear from the cursor to the end of the row.
pub open spec fn esc_clear() -> Seq<u8> {
    seq![27u8, 91u8, 75u8]
}

/// `ESC [ 2 J`: clear the whole screen.
pub open spec fn esc_clear_screen() -> Seq<u8> {
    seq![27u8, 91u8, 50u8, 74u8]
}

/// Carriage return plus line feed: the row separator.
pub open spec fn crlf() -> Seq<u8> {
    seq![13u8, 10u8]
}

/// The shortest decimal representation of `n >= 0`, as ASCII digit bytes.
pub open spec fn dec_rep(n: int) -> Seq<u8>
    decreases n,
{
    if n < 10 {
        seq![(48 + n) as u8]
    } else {
        dec_rep(n / 10) + seq![(48 + n % 10) as u8]
    }
}

/// `ESC [ <r+1> ; <c+1> H`: place the cursor at zero-based row `r`, column
/// `c` (the wire format is one-based).
pub open spec fn goto_code(r: int, c: int) -> Seq<u8> {
    seq![27u8, 91u8] + dec_rep(r + 1) + seq![59u8] + dec_rep(c + 1) + seq![72u8]
}

/// The rendered rows of one line from byte offset `from` on: chunks of at
/// most `w` bytes; a line with nothing left still renders as one empty row.
pub open spec fn wrap_from(line: Seq<u8>, from: int, w: int) -> Seq<Seq<u8>>
    decreases line.len() - from,
    when w >= 1 && from >= 0
{
    if from >= line.len() {
        seq![Seq::<u8>::empty()]
    } else if line.len() - from <= w {
        seq![line.subrange(from, line.len() as int)]
    } else {
        seq![line.subrange(from, from + w)] + wrap_from(line, from + w, w)
    }
}

/// All rendered rows of the buffer from render origin `(lo, lob)` to its
/// end.
pub open spec fn buffer_rows(lines: Seq<Seq<u8>>, lo: int, lob: int, w: int) -> Seq<Seq<u8>>
    decreases lines.len() - lo,
    when lob >= 0 && w >= 1
{
    if lo < 0 || lo >= lines.len() {
        Seq::empty()
    } else {
        wrap_from(lines[lo], lob, w) + buffer_rows(lines, lo + 1, 0, w)
    }
}

/// The text rows that fit in the window: the buffer's rendered rows from the
/// render origin, cut off at the window height.
pub open spec fn visible_rows(s: EdState) -> Seq<Seq<u8>> {
    let rows = buffer_rows(s.lines, s.line_offset, s.line_offset_byte, s.w);
    if rows.len() <= s.h {
        rows
    } else {
        rows.take(s.h)
    }
}

/// A filler row below the buffer's end: a single `~`.
pub open spec fn filler_row() -> Seq<u8> {
    seq![126u8]
}

/// Exactly the window's rows: the visible text rows, then filler rows.
pub open spec fn screen_rows(s: EdState) -> Seq<Seq<u8>> {
    visible_rows(s) + Seq::new((s.h - visible_rows(s).len()) as nat, |i: int| filler_row())
}

/// The bytes that draw the first `k` of the given rows: each row preceded by
/// the clear-row code, consecutive rows separated by one line break, no break
/// after the last.
pub open spec fn render_prefix(rows: Seq<Seq<u8>>, k: int) -> Seq<u8>
    decreases k,
{
    if k <= 0 {
        Seq::empty()
    } else if k == 1 {
        esc_clear() + rows[0]
    } else {
        render_prefix(rows, k - 1) + crlf() + esc_clear() + rows[k - 1]
    }
}

/// Everything one refresh appends to the write buffer: hide the cursor, home,
/// draw every window row, put the cursor back, show it again.
pub open spec fn refresh_seq(s: EdState) -> Seq<u8> {
    esc_hide() + goto_code(0, 0) + render_prefix(screen_rows(s), screen_rows(s).len() as int)
        + goto_code(s.row, s.col) + esc_show()
}

impl Editor {
    /// Append one escape sequence, `ESC [` followed by `cmd`, to the write
    /// buffer; it takes effect only when the buffer is flushed.
    pub fn defer_esc_seq(&mut self, cmd: &Vec<u8>)
        ensures
            final(self)@ == (EdState {
                out: old(self)@.out + seq![27u8, 91u8] + cmd@,
                ..old(self)@
            }),
    {
        self.write_buf.push(27);
        self.write_buf.push(91);
        self.write_buf.extend_from_slice(cmd.as_slice());
        proof {
            assert(self@.out =~= old(self)@.out + seq![27u8, 91u8] + cmd@);
        }
    }

    /// Defer the hide-cursor code.
    pub fn hide_cursor(&mut self)
        ensures
            final(self)@ == (EdState { out: old(self)@.out + esc_hide(), ..old(self)@ }),
    {
        self.defer_esc_seq(&vec![63u8, 50u8, 53u8, 108u8]);
        proof {
            assert(self@.out =~= old(self)@.out + esc_hide());
        }
    }

    /// Defer the show-cursor code.
    pub fn show_cursor(&mut self)
        ensures
            final(self)@ == (EdState { out: old(self)@.out + esc_show(), ..old(self)@ }),
    {
        self.defer_esc_seq(&vec![63u8, 50u8, 53u8, 104u8]);
        proof {
            assert(self@.out =~= old(self)@.out + esc_show());
        }
    }

    /// Defer the clear-screen code.
    pub fn clear_screen(&mut self)
        ensures
            final(self)@ == (EdState { out: old(self)@.out + esc_clear_screen(), ..old(self)@ }),
    {
        self.defer_esc_seq(&vec![50u8, 74u8]);
        proof {
            assert(self@.out =~= old(self)@.out + esc_clear_screen());
        }
    }

    /// Defer the clear-row code.
    pub fn clear_row(&mut self)
        ensures
            final(self)@ == (EdState { out: old(self)@.out + esc_clear(), ..old(self)@ }),
    {
        self.defer_esc_seq(&vec![75u8]);
        proof {
            assert(self@.out =~= old(self)@.out + esc_clear());
        }
    }

    /// Append the decimal digits of `n` to the write buffer.
    fn dec_push(&mut self, n: usize)
        ensures
            final(self)@ == (EdState { out: old(self)@.out + dec_rep(n as int), ..old(self)@ }),
        decreases n,
    {
        if n >= 10 {
            self.dec_push(n / 10);
        }
        self.write_buf.push(48 + (n % 10) as u8);
        proof {
            assert(self@.out =~= old(self)@.out + dec_rep(n as int));
        }
    }

    /// Defer the code that places the cursor at `pos` (zero-based; the wire
    /// format is one-based).
    pub fn move_cursor(&mut self, pos: Pos)
        requires
            pos.row < usize::MAX,
            pos.col < usize::MAX,
        ensures
            final(self)@ == (EdState {
                out: old(self)@.out + goto_code(pos.row as int, pos.col as int),
                ..old(self)@
            }),
    {
        self.write_buf.push(27);
        self.write_buf.push(91);
        self.dec_push(pos.row + 1);
        self.write_buf.push(59);
        self.dec_push(pos.col + 1);
        self.write_buf.push(72);
        proof {
            assert(self@.out =~= old(self)@.out + goto_code(pos.row as int, pos.col as int));
        }
    }

    /// Drop the buffered output after a flush; the capacity stays.
    pub fn clear_write_buf(&mut self)
        ensures
            final(self)@ == (EdState { out: Seq::<u8>::empty(), ..old(self)@ }),
    {
        self.write_buf.clear();
    }
}

/// Peeling one row off the rendered row stream: the stream is never empty
/// while a line remains, its first row is the next chunk of at most `w` bytes
/// of the current line, and what follows is the stream from one wrap boundary
/// (or one line) further.
proof fn lemma_buffer_rows_step(lines: Seq<Seq<u8>>, lo: int, lob: int, w: int)
    requires
        w >= 1,
        0 <= lo < lines.len(),
        0 <= lob <= lines[lo].len(),
    ensures
        buffer_rows(lines, lo, lob, w).len() >= 1,
        buffer_rows(lines, lo, lob, w)[0] == lines[lo].subrange(
            lob,
            lob + min(w, lines[lo].len() - lob),
        ),
        (buffer_rows(lines, lo, lob, w).drop_first() == if lines[lo].len() - lob > w {
            buffer_rows(lines, lo, lob + w, w)
        } else {
            buffer_rows(lines, lo + 1, 0, w)
        }),
{
    let line = lines[lo];
    let len = line.len() as int;
    let first = line.subrange(lob, lob + min(w, len - lob));
    let br = buffer_rows(lines, lo, lob, w);
    if lob >= len {
        assert(first =~= Seq::<u8>::empty());
        assert(br.drop_first() =~= buffer_rows(lines, lo + 1, 0, w));
    } else if len - lob <= w {
        assert(first =~= line.subrange(lob, len));
        assert(br.drop_first() =~= buffer_rows(lines, lo + 1, 0, w));
    } else {
        assert(first =~= line.subrange(lob, lob + w));
        assert(br.drop_first() =~= wrap_from(line, lob + w, w) + buffer_rows(lines, lo + 1, 0, w));
    }
}

/// The window is always exactly filled: the screen holds `h` rows, the text
/// rows first, fillers after them.
proof fn lemma_screen_rows_len(s: EdState)
    requires
        s.h >= 0,
    ensures
        visible_rows(s).len() == min(
            s.h,
            buffer_rows(s.lines, s.line_offset, s.line_offset_byte, s.w).len() as int,
        ),
        screen_rows(s).len() == s.h,
        forall|i: int|
            0 <= i < buffer_rows(s.lines, s.line_offset, s.line_offset_byte, s.w).len() && i < s.h
                ==> screen_rows(s)[i] == buffer_rows(
                s.lines,
                s.line_offset,
                s.line_offset_byte,
                s.w,
            )[i],
        forall|i: int|
            buffer_rows(s.lines, s.line_offset, s.line_offset_byte, s.w).len() <= i < s.h
                ==> screen_rows(s)[i] == filler_row(),
{
}

impl Editor {
    /// Append the bytes `off .. end` of line `li` to the write buffer.
    fn push_line_segment(&mut self, li: usize, off: usize, end: usize)
        requires
            li < old(self)@.lines.len(),
            off <= end <= old(self)@.lines[li as int].len(),
        ensures
            final(self)@ == (EdState {
                out: old(self)@.out + old(self)@.lines[li as int].subrange(off as int, end as int),
                ..old(self)@
            }),
    {
        let mut k = off;
        proof {
            assert(old(self)@.lines[li as int].subrange(off as int, off as int) =~= Seq::<
                u8,
            >::empty());
        }
        while k < end
            invariant
                off <= k <= end,
                li < old(self)@.lines.len(),
                end <= old(self)@.lines[li as int].len(),
                self@ == (EdState {
                    out: old(self)@.out + old(self)@.lines[li as int].subrange(
                        off as int,
                        k as int,
                    ),
                    ..old(self)@
                }),
            decreases end - k,
        {
            let b = self.lines[li][k];
            self.write_buf.push(b);
            k = k + 1;
            proof {
                assert(old(self)@.lines[li as int].subrange(off as int, k as int) =~= old(
                    self,
                )@.lines[li as int].subrange(off as int, k - 1).push(b));
            }
        }
    }

    /// Draw every window row into the write buffer: the visible text rows from
    /// the render origin, wrapped at the window width and cut off at the
    /// window height, then `~` fillers; each row preceded by a clear-row code,
    /// consecutive rows separated by one line break and none after the last.
    pub fn build_rows(&mut self)
        requires
            old(self)@.wf(),
        ensures
            final(self)@ == (EdState {
                out: old(self)@.out + render_prefix(
                    screen_rows(old(self)@),
                    screen_rows(old(self)@).len() as int,
                ),
                ..old(self)@
            }),
    {
        let ghost s0 = self@;
        let ghost total = buffer_rows(s0.lines, s0.line_offset, s0.line_offset_byte, s0.w);
        proof {
            lemma_screen_rows_len(s0);
        }
        let mut drawn: usize = 0;
        let mut li: usize = self.line_offset;
        let mut off: usize = self.line_offset_byte;
        let n_lines = self.lines.len();
        while drawn < self.window_height && li < n_lines
            invariant
                s0.wf(),
                total == buffer_rows(s0.lines, s0.line_offset, s0.line_offset_byte, s0.w),
                n_lines == s0.lines.len(),
                drawn <= s0.h,
                s0.line_offset <= li as int && li as int <= s0.lines.len(),
                li as int == s0.lines.len() ==> off == 0,
                (li as int) < s0.lines.len() ==> off as int <= s0.lines[li as int].len(),
                buffer_rows(s0.lines, li as int, off as int, s0.w) == total.skip(drawn as int),
                drawn + buffer_rows(s0.lines, li as int, off as int, s0.w).len() == total.len(),
                self@ == (EdState {
                    out: s0.out + render_prefix(screen_rows(s0), drawn as int),
                    ..s0
                }),
            decreases s0.h - drawn,
        {
            proof {
                lemma_buffer_rows_step(s0.lines, li as int, off as int, s0.w);
                lemma_screen_rows_len(s0);
            }
            if drawn > 0 {
                self.write_buf.push(13);
                self.write_buf.push(10);
            }
            self.clear_row();
            let len = self.lines[li].len();
            let chunk = if len - off < self.window_width {
                len - off
            } else {
                self.window_width
            };
            let end = off + chunk;
            self.push_line_segment(li, off, end);
            proof {
                assert(total.skip(drawn as int).drop_first() =~= total.skip(drawn as int + 1));
                assert((drawn as int) < visible_rows(s0).len());
                assert(visible_rows(s0)[drawn as int] == total[drawn as int]);
                assert(screen_rows(s0)[drawn as int] == total[drawn as int]);
                assert(total[drawn as int] == s0.lines[li as int].subrange(
                    off as int,
                    end as int,
                ));
                assert(self@.out =~= s0.out + render_prefix(screen_rows(s0), drawn as int + 1));
            }
            if len - off > self.window_width {
                off = off + self.window_width;
            } else {
                li = li + 1;
                off = 0;
            }
            drawn = drawn + 1;
        }
        while drawn < self.window_height
            invariant
                s0.wf(),
                total == buffer_rows(s0.lines, s0.line_offset, s0.line_offset_byte, s0.w),
                drawn <= s0.h,
                total.len() >= drawn as int || visible_rows(s0).len() <= drawn as int,
                visible_rows(s0).len() <= drawn as int,
                self@ == (EdState {
                    out: s0.out + render_prefix(screen_rows(s0), drawn as int),
                    ..s0
                }),
            decreases s0.h - drawn,
        {
            proof {
                lemma_screen_rows_len(s0);
            }
            if drawn > 0 {
                self.write_buf.push(13);
                self.write_buf.push(10);
            }
            self.clear_row();
            self.write_buf.push(126);
            proof {
                assert(screen_rows(s0)[drawn as int] == filler_row());
                assert(self@.out =~= s0.out + render_prefix(screen_rows(s0), drawn as int + 1));
            }
            drawn = drawn + 1;
        }
        proof {
            lemma_screen_rows_len(s0);
        }
    }

    /// One full refresh: hide the cursor, home, redraw every window row, put
    /// the cursor back on its screen position, show it again. Everything is
    /// appended to the write buffer, to be flushed in a single write.
    pub fn refresh_screen(&mut self)
        requires
            old(self)@.wf(),
        ensures
            final(self)@ == (EdState { out: old(self)@.out + refresh_seq(old(self)@), ..old(self)@ }),
    {
        self.hide_cursor();
        self.move_cursor(Pos { row: 0, col: 0 });
        self.build_rows();
        let cursor = self.cursor.pos;
        self.move_cursor(cursor);
        self.show_cursor();
        proof {
            assert(self@.out =~= old(self)@.out + refresh_seq(old(self)@));
        }
    }
}

} // verus!
