//! The viewport/cursor model.
//!
//! An `Editor` owns the text buffer (a sequence of logical lines), the window
//! dimensions, the scroll position of the viewport, the cursor in both screen
//! and logical coordinates, and the output buffer the renderer writes into.
//! Every navigation operation is specified as a pure transition on the ghost
//! state `EdState` and proved to preserve well-formedness.

use vstd::prelude::*;
use vstd::math::min;
use crate::keys::Decoded;
use crate::keys::Key;
use crate::wrap::land;
use crate::wrap::land_col;
use crate::wrap::land_eol;
use crate::wrap::last_row_start;
use crate::wrap::lemma_last_row_start;
use crate::wrap::lemma_row_start_plus_col;
use crate::wrap::row_start_of_last;
use vstd::arithmetic::div_mod::lemma_fundamental_div_mod;
use vstd::arithmetic::div_mod::lemma_mod_add_multiples_vanish;
use vstd::arithmetic::div_mod::lemma_mod_multiples_basic;
use vstd::arithmetic::div_mod::lemma_mod_sub_multiples_vanish;
use vstd::arithmetic::div_mod::lemma_small_mod;

verus! {

/// A place in the terminal window, zero-based: `col` 0, `row` 0 is the top
/// left cell (the VT100 wire format is one-based; conversion happens only
/// when control codes are written out).
#[derive(Clone, Copy, Debug, PartialEq, Eq, Structural)]
pub struct Pos {
    pub col: usize,
    pub row: usize,
}

/// The cursor, in both coordinate systems at once.
pub struct Cursor {
    /// Where the cursor stands on the screen.
    pub pos: Pos,
    /// The index of the logical line the cursor is on. A line may wrap over
    /// several rows, so this cannot be recovered from `pos` alone.
    pub line: usize,
    /// The byte offset of the cursor within its line, counted from the
    /// line's start (not from the start of the current row).
    pub byte: usize,
    /// Set when the cursor means to stay at the end of each row it passes
    /// through; it decides whether a vertical move onto a row of a different
    /// length keeps the column or snaps to the row's end.
    pub is_at_eol: bool,
}

/// The viewport/cursor model: text buffer, window size, scroll position,
/// cursor, and the write buffer that collects output control codes.
pub struct Editor {
    pub cursor: Cursor,
    pub window_width: usize,
    pub window_height: usize,
    /// Output bytes are collected here and flushed in one write per refresh;
    /// the buffer is cleared, not reallocated, between refreshes.
    pub write_buf: Vec<u8>,
    /// The logical lines of the buffer, without line terminators. Never empty:
    /// a buffer with no text holds one empty line.
    pub lines: Vec<Vec<u8>>,
    /// The index of the first line at least partially visible.
    pub line_offset: usize,
    /// The byte offset within that line at which rendering starts; a multiple
    /// of `window_width`, nonzero only when the top visible row is a wrap
    /// continuation.
    pub line_offset_byte: usize,
}

/// The mathematical state of an `Editor`.
#[verifier::ext_equal]
pub struct EdState {
    pub lines: Seq<Seq<u8>>,
    pub w: int,
    pub h: int,
    pub line: int,
    pub byte: int,
    pub col: int,
    pub row: int,
    pub at_eol: bool,
    pub line_offset: int,
    pub line_offset_byte: int,
    pub out: Seq<u8>,
}

impl View for Editor {
    type V = EdState;

    open spec fn view(&self) -> EdState {
        EdState {
            lines: Seq::new(self.lines@.len(), |i: int| self.lines@[i]@),
            w: self.window_width as int,
            h: self.window_height as int,
            line: self.cursor.line as int,
            byte: self.cursor.byte as int,
            col: self.cursor.pos.col as int,
            row: self.cursor.pos.row as int,
            at_eol: self.cursor.is_at_eol,
            line_offset: self.line_offset as int,
            line_offset_byte: self.line_offset_byte as int,
            out: self.write_buf@,
        }
    }
}

impl EdState {
    pub open spec fn line_count(self) -> int {
        self.lines.len() as int
    }

    /// The length of the line the cursor is on.
    pub open spec fn cur_line_len(self) -> int {
        self.lines[self.line].len() as int
    }

    /// Buffer and logical cursor are consistent, independently of the window:
    /// at least one line, the cursor on an existing line at an existing byte
    /// (byte 0 on an empty line), the viewport on an existing line, and every
    /// line short enough that wrap arithmetic cannot overflow a `usize`.
    pub open spec fn wf_core(self) -> bool {
        &&& self.lines.len() >= 1
        &&& 0 <= self.line < self.line_count()
        &&& (if self.cur_line_len() == 0 {
            self.byte == 0
        } else {
            0 <= self.byte < self.cur_line_len()
        })
        &&& 0 <= self.line_offset < self.line_count()
        &&& forall|i: int|
            0 <= i < self.line_count() ==> #[trigger] self.lines[i].len() <= usize::MAX / 2
    }

    /// Full well-formedness, once a window size is set: the screen column is
    /// the byte offset taken at the current wrap boundary, the screen row is
    /// inside the window, and the render origin sits on a wrap boundary
    /// inside its line.
    pub open spec fn wf(self) -> bool {
        &&& self.wf_core()
        &&& 1 <= self.w <= usize::MAX / 2
        &&& 1 <= self.h
        &&& self.col == self.byte % self.w
        &&& 0 <= self.row < self.h
        &&& self.line_offset_byte % self.w == 0
        &&& (self.line_offset_byte == 0 || 0 < self.line_offset_byte < self.lines[self.line_offset].len())
    }

    /// The column index of the last occupied cell of the cursor's row, under
    /// the row-end rule this model uses throughout: `min(len, w) - 1` for the
    /// cursor's line, or column 0 on an empty line.
    pub open spec fn end_of_row_spec(self) -> int {
        if self.cur_line_len() == 0 {
            0
        } else {
            min(self.cur_line_len(), self.w) - 1
        }
    }

    /// CursorLeft: within the row, one column and one byte back; leaving the
    /// row's last column clears the end-of-line flag. At column 0 it is a
    /// no-op.
    pub open spec fn left_spec(self) -> EdState {
        if self.col > 0 {
            EdState {
                col: self.col - 1,
                byte: self.byte - 1,
                at_eol: if self.col == self.end_of_row_spec() {
                    false
                } else {
                    self.at_eol
                },
                ..self
            }
        } else {
            self
        }
    }

    /// CursorRight: one column and one byte forward while bytes remain in the
    /// line and the window edge is not hit; reaching the row's last column
    /// sets the end-of-line flag.
    pub open spec fn right_spec(self) -> EdState {
        if self.byte + 1 < self.cur_line_len() && self.col + 1 < self.w {
            EdState {
                col: self.col + 1,
                byte: self.byte + 1,
                at_eol: if self.col + 1 == self.end_of_row_spec() {
                    true
                } else {
                    self.at_eol
                },
                ..self
            }
        } else {
            self
        }
    }

    /// ScrollDown: the render origin advances one rendered row; within a
    /// wrapped line by one wrap boundary, otherwise to the next line's start.
    /// At the bottom of the buffer it is a no-op.
    pub open spec fn scroll_down_spec(self) -> EdState {
        if self.line_offset_byte + self.w < self.lines[self.line_offset].len() {
            EdState { line_offset_byte: self.line_offset_byte + self.w, ..self }
        } else if self.line_offset + 1 < self.line_count() {
            EdState { line_offset: self.line_offset + 1, line_offset_byte: 0, ..self }
        } else {
            self
        }
    }

    /// ScrollUp: the render origin moves one rendered row back; within a
    /// wrapped line by one wrap boundary, otherwise to the previous line's
    /// start. At the top of the buffer it is a no-op.
    pub open spec fn scroll_up_spec(self) -> EdState {
        if self.line_offset_byte >= self.w {
            EdState { line_offset_byte: self.line_offset_byte - self.w, ..self }
        } else if self.line_offset > 0 {
            EdState { line_offset: self.line_offset - 1, line_offset_byte: 0, ..self }
        } else {
            self
        }
    }

    /// The last byte, counted from the line's start, of the cursor's current
    /// rendered row, under the same row-end rule as `end_of_row_spec`.
    pub open spec fn row_last_byte(self) -> int {
        self.byte - self.col + self.end_of_row_spec()
    }

    /// How many bytes of the cursor's line lie beyond its current rendered
    /// row.
    pub open spec fn bytes_left_in_line(self) -> int {
        if self.row_last_byte() + 1 >= self.cur_line_len() {
            0
        } else {
            self.cur_line_len() - self.row_last_byte() - 1
        }
    }

    /// CursorDown. On the window's last row the viewport scrolls down one
    /// rendered row and the screen row stays put; otherwise the screen row
    /// advances. The logical cursor then lands one rendered row further: on
    /// the next wrap row of its own line if bytes remain there, else on the
    /// first row of the next line if one exists (else nothing more moves).
    /// Landing keeps or clamps the column per `land_col` / `land_eol`.
    pub open spec fn down_spec(self) -> EdState {
        let scrolled = self.row + 1 == self.h;
        let s1 = if scrolled {
            self.scroll_down_spec()
        } else {
            self
        };
        let row2 = if scrolled {
            self.row
        } else {
            self.row + 1
        };
        if self.bytes_left_in_line() > 0 {
            let rl = min(self.bytes_left_in_line(), self.w);
            EdState {
                row: row2,
                col: land_col(self.at_eol, self.col, rl),
                byte: self.row_last_byte() + 1 + land_col(self.at_eol, self.col, rl),
                at_eol: land_eol(self.at_eol, self.col, rl),
                ..s1
            }
        } else if self.line + 1 < self.line_count() {
            let rl = min(self.lines[self.line + 1].len() as int, self.w);
            EdState {
                line: self.line + 1,
                row: row2,
                col: land_col(self.at_eol, self.col, rl),
                byte: land_col(self.at_eol, self.col, rl),
                at_eol: land_eol(self.at_eol, self.col, rl),
                ..s1
            }
        } else {
            s1
        }
    }

    /// CursorUp. On the window's top row the viewport scrolls up one rendered
    /// row and the screen row stays put; otherwise the screen row moves up.
    /// The logical cursor then lands one rendered row back: on the previous
    /// wrap row of its own line when the byte offset reaches one, else on the
    /// last rendered row of the previous line if one exists (else nothing
    /// more moves). Landing keeps or clamps the column per `land_col` /
    /// `land_eol`.
    pub open spec fn up_spec(self) -> EdState {
        let scrolled = self.row == 0;
        let s1 = if scrolled {
            self.scroll_up_spec()
        } else {
            self
        };
        let row2 = if scrolled {
            self.row
        } else {
            self.row - 1
        };
        if self.byte >= self.w {
            EdState { byte: self.byte - self.w, row: row2, ..s1 }
        } else if self.line > 0 {
            let len = self.lines[self.line - 1].len() as int;
            let rl = len - last_row_start(len, self.w);
            EdState {
                line: self.line - 1,
                row: row2,
                col: land_col(self.at_eol, self.col, rl),
                byte: last_row_start(len, self.w) + land_col(self.at_eol, self.col, rl),
                at_eol: land_eol(self.at_eol, self.col, rl),
                ..s1
            }
        } else {
            s1
        }
    }

    /// `n` CursorDown steps in a row.
    pub open spec fn downs_spec(self, n: nat) -> EdState
        decreases n,
    {
        if n == 0 {
            self
        } else {
            self.downs_spec((n - 1) as nat).down_spec()
        }
    }

    /// `n` CursorUp steps in a row.
    pub open spec fn ups_spec(self, n: nat) -> EdState
        decreases n,
    {
        if n == 0 {
            self
        } else {
            self.ups_spec((n - 1) as nat).up_spec()
        }
    }

    /// How many CursorDown steps PageDown takes: one window's worth, capped
    /// by the count of lines below the cursor's screen row.
    pub open spec fn page_down_count(self) -> int {
        min(self.h, if self.line_count() > self.row {
            self.line_count() - self.row
        } else {
            0
        })
    }

    /// PageDown: repeated CursorDown, at most one full screen.
    pub open spec fn page_down_spec(self) -> EdState {
        self.downs_spec(self.page_down_count() as nat)
    }

    /// How many CursorUp steps PageUp takes: up to the window height, never
    /// past the window's first row.
    pub open spec fn page_up_count(self) -> int {
        min(self.h, self.row)
    }

    /// PageUp: repeated CursorUp, at most one full screen.
    pub open spec fn page_up_spec(self) -> EdState {
        self.ups_spec(self.page_up_count() as nat)
    }

    /// Home: back to the very start of the buffer, cursor and viewport both.
    pub open spec fn home_spec(self) -> EdState {
        EdState { line: 0, byte: 0, col: 0, row: 0, line_offset: 0, line_offset_byte: 0, ..self }
    }

    /// End: jump to the last full screen of the buffer, the cursor on the
    /// window's last row at the start of the buffer's last line.
    pub open spec fn end_spec(self) -> EdState {
        EdState {
            line: self.line_count() - 1,
            byte: 0,
            col: 0,
            row: self.h - 1,
            line_offset: if self.line_count() >= self.h {
                self.line_count() - self.h
            } else {
                0
            },
            line_offset_byte: 0,
            ..self
        }
    }

    /// A fresh window size: dimensions change, the screen column is recomputed
    /// from the byte offset at the new width, the screen row is clamped into
    /// the window, and a render origin that no longer sits on a wrap boundary
    /// inside its line falls back to the line's start.
    pub open spec fn resize_spec(self, w: int, h: int) -> EdState {
        EdState {
            w: w,
            h: h,
            col: self.byte % w,
            row: if self.row < h {
                self.row
            } else {
                h - 1
            },
            line_offset_byte: if self.line_offset_byte % w == 0 && (self.line_offset_byte == 0
                || self.line_offset_byte < self.lines[self.line_offset].len()) {
                self.line_offset_byte
            } else {
                0
            },
            ..self
        }
    }

    /// What one key does to the state.
    pub open spec fn apply_key_spec(self, k: Key) -> EdState {
        match k {
            Key::ArrowUp => self.up_spec(),
            Key::ArrowDown => self.down_spec(),
            Key::ArrowLeft => self.left_spec(),
            Key::ArrowRight => self.right_spec(),
            Key::PageUp => self.page_up_spec(),
            Key::PageDown => self.page_down_spec(),
            Key::Home => self.home_spec(),
            Key::End => self.end_spec(),
            Key::Delete => self,
        }
    }

    /// What one decoded input does to the state: keys navigate, everything
    /// else leaves the state as it is.
    pub open spec fn handle_spec(self, d: Decoded) -> EdState {
        match d {
            Decoded::Key(k) => self.apply_key_spec(k),
            _ => self,
        }
    }
}

/// Facts a well-formed state gives about the screen column: it is a real
/// column of the window, it never exceeds the byte offset or the row-end
/// column, and the byte offset minus the column (the current row's first
/// byte) sits on a wrap boundary.
pub proof fn lemma_col_facts(s: EdState)
    requires
        s.wf(),
    ensures
        0 <= s.col < s.w,
        s.col <= s.byte,
        s.col <= s.end_of_row_spec() < s.w,
        (s.byte - s.col) % s.w == 0,
{
    vstd::arithmetic::div_mod::lemma_mod_decreases(s.byte as nat, s.w as nat);
    lemma_fundamental_div_mod(s.byte, s.w);
    lemma_mod_multiples_basic(s.byte / s.w, s.w);
    if s.cur_line_len() != 0 && s.cur_line_len() <= s.w {
        lemma_small_mod(s.byte as nat, s.w as nat);
    }
}

/// ScrollDown preserves well-formedness.
pub proof fn lemma_scroll_down_wf(s: EdState)
    requires
        s.wf(),
    ensures
        s.scroll_down_spec().wf(),
{
    if s.line_offset_byte + s.w < s.lines[s.line_offset].len() {
        lemma_mod_add_multiples_vanish(s.line_offset_byte, s.w);
    }
}

/// ScrollUp preserves well-formedness.
pub proof fn lemma_scroll_up_wf(s: EdState)
    requires
        s.wf(),
    ensures
        s.scroll_up_spec().wf(),
{
    if s.line_offset_byte >= s.w {
        lemma_mod_sub_multiples_vanish(s.line_offset_byte, s.w);
    } else if s.line_offset > 0 {
        lemma_small_mod(0nat, s.w as nat);
    }
}

/// CursorLeft preserves well-formedness.
pub proof fn lemma_left_wf(s: EdState)
    requires
        s.wf(),
    ensures
        s.left_spec().wf(),
{
    lemma_col_facts(s);
    if s.col > 0 {
        lemma_row_start_plus_col(s.byte - s.col, s.col - 1, s.w);
    }
}

/// CursorRight preserves well-formedness.
pub proof fn lemma_right_wf(s: EdState)
    requires
        s.wf(),
    ensures
        s.right_spec().wf(),
{
    lemma_col_facts(s);
    if s.byte + 1 < s.cur_line_len() && s.col + 1 < s.w {
        lemma_row_start_plus_col(s.byte - s.col, s.col + 1, s.w);
    }
}

/// CursorDown preserves well-formedness.
pub proof fn lemma_down_wf(s: EdState)
    requires
        s.wf(),
    ensures
        s.down_spec().wf(),
{
    lemma_col_facts(s);
    lemma_scroll_down_wf(s);
    let rs = s.byte - s.col;
    if s.bytes_left_in_line() > 0 {
        // The current row ends before the line does, so the line wraps and
        // every row before the last is a full one: the next row starts one
        // wrap boundary further.
        if s.cur_line_len() <= s.w {
            lemma_small_mod(s.byte as nat, s.w as nat);
        }
        assert(s.cur_line_len() > s.w);
        let rl = min(s.bytes_left_in_line(), s.w);
        lemma_mod_add_multiples_vanish(rs, s.w);
        lemma_row_start_plus_col(rs + s.w, land_col(s.at_eol, s.col, rl), s.w);
    } else if s.line + 1 < s.line_count() {
        let len2 = s.lines[s.line + 1].len() as int;
        let rl = min(len2, s.w);
        lemma_small_mod(land_col(s.at_eol, s.col, rl) as nat, s.w as nat);
    }
}

/// CursorUp preserves well-formedness.
pub proof fn lemma_up_wf(s: EdState)
    requires
        s.wf(),
    ensures
        s.up_spec().wf(),
{
    lemma_col_facts(s);
    lemma_scroll_up_wf(s);
    if s.byte >= s.w {
        lemma_mod_sub_multiples_vanish(s.byte, s.w);
    } else if s.line > 0 {
        let len = s.lines[s.line - 1].len() as int;
        if len == 0 {
            lemma_small_mod(0nat, s.w as nat);
        } else {
            lemma_last_row_start(len, s.w);
            let rl = len - last_row_start(len, s.w);
            lemma_row_start_plus_col(last_row_start(len, s.w), land_col(s.at_eol, s.col, rl), s.w);
        }
    }
}

/// Any number of CursorDown steps preserves well-formedness.
pub proof fn lemma_downs_wf(s: EdState, n: nat)
    requires
        s.wf(),
    ensures
        s.downs_spec(n).wf(),
    decreases n,
{
    if n > 0 {
        lemma_downs_wf(s, (n - 1) as nat);
        lemma_down_wf(s.downs_spec((n - 1) as nat));
    }
}

/// Any number of CursorUp steps preserves well-formedness.
pub proof fn lemma_ups_wf(s: EdState, n: nat)
    requires
        s.wf(),
    ensures
        s.ups_spec(n).wf(),
    decreases n,
{
    if n > 0 {
        lemma_ups_wf(s, (n - 1) as nat);
        lemma_up_wf(s.ups_spec((n - 1) as nat));
    }
}

/// The state of a freshly created editor: a one-empty-line buffer, no window
/// size yet, everything at zero.
pub open spec fn initial_state() -> EdState {
    EdState {
        lines: seq![Seq::<u8>::empty()],
        w: 0,
        h: 0,
        line: 0,
        byte: 0,
        col: 0,
        row: 0,
        at_eol: false,
        line_offset: 0,
        line_offset_byte: 0,
        out: Seq::<u8>::empty(),
    }
}

impl Editor {
    /// An editor with an empty buffer (one blank line), no window size yet,
    /// cursor and viewport at the origin.
    pub fn new() -> (e: Editor)
        ensures
            e@ == initial_state(),
            e@.wf_core(),
    {
        let mut lines: Vec<Vec<u8>> = Vec::new();
        lines.push(Vec::new());
        let e = Editor {
            cursor: Cursor { pos: Pos { row: 0, col: 0 }, line: 0, byte: 0, is_at_eol: false },
            window_width: 0,
            window_height: 0,
            write_buf: Vec::new(),
            lines,
            line_offset: 0,
            line_offset_byte: 0,
        };
        proof {
            assert(e@ =~~= initial_state());
        }
        e
    }

    /// An editor over the given buffer of lines, otherwise in the fresh
    /// zeroed state. The buffer must hold at least one line (an empty text is
    /// one empty line), each short enough for the wrap arithmetic.
    pub fn from_lines(lines: Vec<Vec<u8>>) -> (e: Editor)
        requires
            lines@.len() >= 1,
            forall|i: int| 0 <= i < lines@.len() ==> #[trigger] lines@[i]@.len() <= usize::MAX / 2,
        ensures
            e@ == (EdState { lines: Seq::new(lines@.len(), |i: int| lines@[i]@), ..initial_state() }),
            e@.wf_core(),
    {
        let e = Editor {
            cursor: Cursor { pos: Pos { row: 0, col: 0 }, line: 0, byte: 0, is_at_eol: false },
            window_width: 0,
            window_height: 0,
            write_buf: Vec::new(),
            lines,
            line_offset: 0,
            line_offset_byte: 0,
        };
        proof {
            assert(e@ =~~= (EdState {
                lines: Seq::new(e.lines@.len(), |i: int| e.lines@[i]@),
                ..initial_state()
            }));
        }
        e
    }

    /// Take a fresh window size, refreshed before every render. The screen
    /// column and row and the render origin are renormalized to the new
    /// dimensions; on an unchanged window this changes nothing.
    pub fn set_window_size(&mut self, w: usize, h: usize)
        requires
            old(self)@.wf_core(),
            1 <= w <= usize::MAX / 2,
            1 <= h,
        ensures
            final(self)@ == old(self)@.resize_spec(w as int, h as int),
            final(self)@.wf(),
    {
        self.window_width = w;
        self.window_height = h;
        self.cursor.pos.col = self.cursor.byte % w;
        if self.cursor.pos.row >= h {
            self.cursor.pos.row = h - 1;
        }
        let lob = self.line_offset_byte;
        let lob_ok = lob % w == 0 && (lob == 0 || lob < self.lines[self.line_offset].len());
        if !lob_ok {
            self.line_offset_byte = 0;
        }
        proof {
            lemma_small_mod(0nat, w as nat);
        }
    }

    /// The column index of the last occupied cell of the cursor's row (column
    /// 0 on an empty line); see `EdState::end_of_row_spec`.
    pub fn end_of_row(&self) -> (r: usize)
        requires
            self@.wf(),
        ensures
            r == self@.end_of_row_spec(),
    {
        let line_len = self.lines[self.cursor.line].len();
        if line_len == 0 {
            0
        } else if line_len < self.window_width {
            line_len - 1
        } else {
            self.window_width - 1
        }
    }

    /// ScrollDown (see `EdState::scroll_down_spec`).
    pub fn scroll_down(&mut self)
        requires
            old(self)@.wf(),
        ensures
            final(self)@ == old(self)@.scroll_down_spec(),
            final(self)@.wf(),
    {
        proof {
            lemma_scroll_down_wf(old(self)@);
        }
        let n_lines = self.lines.len();
        if self.line_offset_byte + self.window_width < self.lines[self.line_offset].len() {
            self.line_offset_byte = self.line_offset_byte + self.window_width;
        } else if self.line_offset + 1 < n_lines {
            self.line_offset = self.line_offset + 1;
            self.line_offset_byte = 0;
        }
    }

    /// ScrollUp (see `EdState::scroll_up_spec`).
    pub fn scroll_up(&mut self)
        requires
            old(self)@.wf(),
        ensures
            final(self)@ == old(self)@.scroll_up_spec(),
            final(self)@.wf(),
    {
        proof {
            lemma_scroll_up_wf(old(self)@);
        }
        if self.line_offset_byte >= self.window_width {
            self.line_offset_byte = self.line_offset_byte - self.window_width;
        } else if self.line_offset > 0 {
            self.line_offset = self.line_offset - 1;
            self.line_offset_byte = 0;
        }
    }

    /// CursorLeft (see `EdState::left_spec`).
    pub fn cursor_left(&mut self)
        requires
            old(self)@.wf(),
        ensures
            final(self)@ == old(self)@.left_spec(),
            final(self)@.wf(),
    {
        proof {
            lemma_left_wf(old(self)@);
            lemma_col_facts(old(self)@);
        }
        if self.cursor.pos.col > 0 {
            let eor = self.end_of_row();
            if self.cursor.pos.col == eor {
                self.cursor.is_at_eol = false;
            }
            self.cursor.pos.col = self.cursor.pos.col - 1;
            self.cursor.byte = self.cursor.byte - 1;
        }
    }

    /// CursorRight (see `EdState::right_spec`).
    pub fn cursor_right(&mut self)
        requires
            old(self)@.wf(),
        ensures
            final(self)@ == old(self)@.right_spec(),
            final(self)@.wf(),
    {
        proof {
            lemma_right_wf(old(self)@);
            lemma_col_facts(old(self)@);
        }
        if self.cursor.byte + 1 < self.lines[self.cursor.line].len()
            && self.cursor.pos.col + 1 < self.window_width {
            let eor = self.end_of_row();
            self.cursor.pos.col = self.cursor.pos.col + 1;
            self.cursor.byte = self.cursor.byte + 1;
            if self.cursor.pos.col == eor {
                self.cursor.is_at_eol = true;
            }
        }
    }

    /// CursorDown (see `EdState::down_spec`).
    pub fn cursor_down(&mut self)
        requires
            old(self)@.wf(),
        ensures
            final(self)@ == old(self)@.down_spec(),
            final(self)@.wf(),
    {
        proof {
            lemma_down_wf(old(self)@);
            lemma_col_facts(old(self)@);
        }
        let scrolled = self.cursor.pos.row + 1 == self.window_height;
        if scrolled {
            self.scroll_down();
        }
        let eor = self.end_of_row();
        let row_last_byte = self.cursor.byte - self.cursor.pos.col + eor;
        let line_len = self.lines[self.cursor.line].len();
        let bytes_left = if row_last_byte + 1 >= line_len {
            0
        } else {
            line_len - row_last_byte - 1
        };
        let n_lines = self.lines.len();
        if bytes_left > 0 {
            let rl = if bytes_left < self.window_width {
                bytes_left
            } else {
                self.window_width
            };
            let lc = land(self.cursor.is_at_eol, self.cursor.pos.col, rl);
            if !scrolled {
                self.cursor.pos.row = self.cursor.pos.row + 1;
            }
            self.cursor.pos.col = lc.0;
            self.cursor.byte = row_last_byte + 1 + lc.0;
            self.cursor.is_at_eol = lc.1;
        } else if self.cursor.line + 1 < n_lines {
            self.cursor.line = self.cursor.line + 1;
            let next_len = self.lines[self.cursor.line].len();
            let rl = if next_len < self.window_width {
                next_len
            } else {
                self.window_width
            };
            let lc = land(self.cursor.is_at_eol, self.cursor.pos.col, rl);
            if !scrolled {
                self.cursor.pos.row = self.cursor.pos.row + 1;
            }
            self.cursor.pos.col = lc.0;
            self.cursor.byte = lc.0;
            self.cursor.is_at_eol = lc.1;
        }
    }

    /// CursorUp (see `EdState::up_spec`).
    pub fn cursor_up(&mut self)
        requires
            old(self)@.wf(),
        ensures
            final(self)@ == old(self)@.up_spec(),
            final(self)@.wf(),
    {
        proof {
            lemma_up_wf(old(self)@);
            lemma_col_facts(old(self)@);
        }
        let scrolled = self.cursor.pos.row == 0;
        if scrolled {
            self.scroll_up();
        }
        if self.cursor.byte >= self.window_width {
            self.cursor.byte = self.cursor.byte - self.window_width;
            if !scrolled {
                self.cursor.pos.row = self.cursor.pos.row - 1;
            }
        } else if self.cursor.line > 0 {
            self.cursor.line = self.cursor.line - 1;
            if !scrolled {
                self.cursor.pos.row = self.cursor.pos.row - 1;
            }
            let len = self.lines[self.cursor.line].len();
            let lrs = row_start_of_last(len, self.window_width);
            let rl = len - lrs;
            let lc = land(self.cursor.is_at_eol, self.cursor.pos.col, rl);
            self.cursor.pos.col = lc.0;
            self.cursor.byte = lrs + lc.0;
            self.cursor.is_at_eol = lc.1;
        }
    }

    /// PageDown (see `EdState::page_down_spec`).
    pub fn page_down(&mut self)
        requires
            old(self)@.wf(),
        ensures
            final(self)@ == old(self)@.page_down_spec(),
            final(self)@.wf(),
    {
        let rows_left = if self.lines.len() > self.cursor.pos.row {
            self.lines.len() - self.cursor.pos.row
        } else {
            0
        };
        let rows = if self.window_height < rows_left {
            self.window_height
        } else {
            rows_left
        };
        let mut i: usize = 0;
        while i < rows
            invariant
                i <= rows,
                rows == old(self)@.page_down_count(),
                self@ == old(self)@.downs_spec(i as nat),
                self@.wf(),
            decreases rows - i,
        {
            self.cursor_down();
            i = i + 1;
        }
    }

    /// PageUp (see `EdState::page_up_spec`).
    pub fn page_up(&mut self)
        requires
            old(self)@.wf(),
        ensures
            final(self)@ == old(self)@.page_up_spec(),
            final(self)@.wf(),
    {
        let rows = if self.window_height < self.cursor.pos.row {
            self.window_height
        } else {
            self.cursor.pos.row
        };
        let mut i: usize = 0;
        while i < rows
            invariant
                i <= rows,
                rows == old(self)@.page_up_count(),
                self@ == old(self)@.ups_spec(i as nat),
                self@.wf(),
            decreases rows - i,
        {
            self.cursor_up();
            i = i + 1;
        }
    }

    /// Home (see `EdState::home_spec`).
    pub fn home(&mut self)
        requires
            old(self)@.wf(),
        ensures
            final(self)@ == old(self)@.home_spec(),
            final(self)@.wf(),
    {
        proof {
            lemma_small_mod(0nat, old(self)@.w as nat);
        }
        self.cursor.pos = Pos { row: 0, col: 0 };
        self.cursor.line = 0;
        self.cursor.byte = 0;
        self.line_offset = 0;
        self.line_offset_byte = 0;
    }

    /// End (see `EdState::end_spec`).
    pub fn end(&mut self)
        requires
            old(self)@.wf(),
        ensures
            final(self)@ == old(self)@.end_spec(),
            final(self)@.wf(),
    {
        proof {
            lemma_small_mod(0nat, old(self)@.w as nat);
        }
        self.cursor.pos = Pos { col: 0, row: self.window_height - 1 };
        self.cursor.line = self.lines.len() - 1;
        self.cursor.byte = 0;
        self.line_offset = if self.lines.len() >= self.window_height {
            self.lines.len() - self.window_height
        } else {
            0
        };
        self.line_offset_byte = 0;
    }

    /// Dispatch one recognized key to its navigation operation (see
    /// `EdState::apply_key_spec`).
    pub fn handle_esc_seq_key(&mut self, k: Key)
        requires
            old(self)@.wf(),
        ensures
            final(self)@ == old(self)@.apply_key_spec(k),
            final(self)@.wf(),
    {
        match k {
            Key::ArrowUp => self.cursor_up(),
            Key::ArrowDown => self.cursor_down(),
            Key::ArrowLeft => self.cursor_left(),
            Key::ArrowRight => self.cursor_right(),
            Key::PageUp => self.page_up(),
            Key::PageDown => self.page_down(),
            Key::Home => self.home(),
            Key::End => self.end(),
            Key::Delete => (),
        }
    }

    /// A plain input byte does nothing: this core is a viewer, text mutation
    /// is out of its scope.
    pub fn handle_input(&mut self, _b: u8)
        ensures
            final(self)@ == old(self)@,
    {
    }

    /// Apply one decoded input to the model (see `EdState::handle_spec`).
    pub fn handle_key(&mut self, d: Decoded)
        requires
            old(self)@.wf(),
        ensures
            final(self)@ == old(self)@.handle_spec(d),
            final(self)@.wf(),
    {
        match d {
            Decoded::Key(k) => self.handle_esc_seq_key(k),
            Decoded::Plain(b) => self.handle_input(b),
            Decoded::Pending => (),
            Decoded::Unrecognized => (),
        }
    }
}

} // verus!
