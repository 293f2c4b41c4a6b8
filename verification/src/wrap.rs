//! Row-wrapping arithmetic.
//!
//! A line of `len` bytes shown in a window `w` columns wide occupies
//! `max(1, ceil(len / w))` rendered rows: full rows of `w` bytes followed by a
//! final, possibly shorter, row. An empty line still occupies one (empty) row,
//! and a line whose length is an exact multiple of `w` wraps into `len / w`
//! full rows with no trailing empty row. The functions here give the row
//! count, the byte offset at which the last row starts, and the rule by which
//! a vertical cursor move lands on a row of a given length.

use vstd::prelude::*;
use vstd::arithmetic::div_mod::lemma_basic_div;
use vstd::arithmetic::div_mod::lemma_div_plus_one;
use vstd::arithmetic::div_mod::lemma_div_pos_is_pos;
use vstd::arithmetic::div_mod::lemma_fundamental_div_mod;
use vstd::arithmetic::div_mod::lemma_mod_multiples_basic;
use vstd::arithmetic::div_mod::lemma_mod_multiples_vanish;
use vstd::arithmetic::div_mod::lemma_small_mod;
use vstd::math::max;
use vstd::math::min;

verus! {

/// How many rendered rows a line of `len` bytes occupies at width `w`.
pub open spec fn rows_of_line(len: int, w: int) -> int {
    if len == 0 {
        1
    } else {
        (len - 1) / w + 1
    }
}

/// The byte offset, within its line, of the first byte of the line's last
/// rendered row. Always a multiple of `w`; `0` when the line fits in one row.
pub open spec fn last_row_start(len: int, w: int) -> int {
    if len == 0 {
        0
    } else {
        ((len - 1) / w) * w
    }
}

/// The column index of the last occupied cell of a rendered row of `row_len`
/// bytes; column `0` for an empty row.
pub open spec fn last_col(row_len: int) -> int {
    if row_len == 0 {
        0
    } else {
        row_len - 1
    }
}

/// The column on which a vertical move lands on a row of `row_len` bytes,
/// coming from column `c`: the row's end when the end-of-line flag `e` is set
/// or when the row is too short to keep the column, otherwise column `c`.
pub open spec fn land_col(e: bool, c: int, row_len: int) -> int {
    if row_len == 0 {
        0
    } else if e {
        row_len - 1
    } else {
        min(c, row_len - 1)
    }
}

/// The end-of-line flag after a vertical move onto a row of `row_len` bytes:
/// it stays set, and it becomes set when the row is shorter than the column
/// the cursor came from.
pub open spec fn land_eol(e: bool, c: int, row_len: int) -> bool {
    e || c > last_col(row_len)
}

/// A line of length `len` rendered at width `w > 0` occupies exactly
/// `max(1, ceil(len / w))` rows.
pub proof fn lemma_rows_of_line(len: int, w: int)
    requires
        w >= 1,
        len >= 0,
    ensures
        rows_of_line(len, w) == max(1, (len + w - 1) / w),
        rows_of_line(len, w) >= 1,
{
    if len == 0 {
        lemma_basic_div(w - 1, w);
    } else {
        lemma_div_plus_one(len - 1, w);
        lemma_div_pos_is_pos(len - 1, w);
    }
}

/// Where the last rendered row of a non-empty line starts: at a wrap boundary
/// (a multiple of `w`), leaving between 1 and `w` bytes for the last row.
pub proof fn lemma_last_row_start(len: int, w: int)
    requires
        w >= 1,
        len >= 1,
    ensures
        last_row_start(len, w) % w == 0,
        0 <= last_row_start(len, w) <= len - 1,
        1 <= len - last_row_start(len, w) <= w,
        last_row_start(len, w) == (rows_of_line(len, w) - 1) * w,
{
    let q = (len - 1) / w;
    lemma_mod_multiples_basic(q, w);
    lemma_fundamental_div_mod(len - 1, w);
    lemma_div_pos_is_pos(len - 1, w);
}

/// A byte offset at a wrap boundary plus an in-row column stands at that
/// column of its row: taken modulo `w` it gives the column back.
pub proof fn lemma_row_start_plus_col(rs: int, c: int, w: int)
    requires
        w >= 1,
        rs >= 0,
        rs % w == 0,
        0 <= c < w,
    ensures
        (rs + c) % w == c,
{
    lemma_fundamental_div_mod(rs, w);
    lemma_mod_multiples_vanish(rs / w, c, w);
    lemma_small_mod(c as nat, w as nat);
}

/// A vertical move that lands on a row shorter than the column it came from
/// leaves the cursor on that row's last occupied column with the end-of-line
/// flag set.
pub proof fn lemma_land_short_row(e: bool, c: int, row_len: int)
    requires
        c > last_col(row_len),
    ensures
        land_eol(e, c, row_len),
        land_col(e, c, row_len) == last_col(row_len),
{
}

/// Executable form of `land_col` and `land_eol`.
pub fn land(e: bool, c: usize, row_len: usize) -> (r: (usize, bool))
    ensures
        r.0 == land_col(e, c as int, row_len as int),
        r.1 == land_eol(e, c as int, row_len as int),
{
    if row_len == 0 {
        (0, e || c > 0)
    } else {
        let last = row_len - 1;
        let col = if e {
            last
        } else if c < last {
            c
        } else {
            last
        };
        (col, e || c > last)
    }
}

/// Executable form of `last_row_start`.
pub fn row_start_of_last(len: usize, w: usize) -> (r: usize)
    requires
        w >= 1,
    ensures
        r == last_row_start(len as int, w as int),
        r <= len,
{
    if len == 0 {
        0
    } else {
        proof {
            lemma_last_row_start(len as int, w as int);
        }
        ((len - 1) / w) * w
    }
}

} // verus!
