//! Reading the terminal's cursor-position report.
//!
//! After a position request the terminal answers `ESC [ <row> ; <col> R`,
//! one-based. The bytes up to (not including) the final `R` are handed to the
//! parser here, which skips any stray bytes before the `ESC`, reads the two
//! decimal numbers, and converts them to this crate's zero-based coordinates.
//! Anything malformed — no escape byte, no digits, no separator, a zero or
//! out-of-range coordinate — yields nothing; a terminal that cannot answer
//! the request correctly cannot drive this viewer at all.

use vstd::prelude::*;
use crate::editor::Pos;
use crate::keys::is_ascii_digit;
use crate::scan::all_digits;
use crate::scan::dec_val;
use crate::scan::find_byte;
use crate::scan::find_digit;
use crate::scan::lemma_dec_val_prefix;
use crate::scan::lemma_find_byte;
use crate::scan::lemma_find_byte_none;
use crate::scan::lemma_find_byte_unique;
use crate::scan::lemma_find_digit;
use crate::scan::lemma_find_digit_unique;
use vstd::arithmetic::div_mod::lemma_fundamental_div_mod;

verus! {

/// The zero-based `(row, col)` named by a cursor-position report, or `None`
/// when the bytes do not form one: after the first escape byte there must be
/// a digit run ending exactly at the first `;`, then a digit run reaching the
/// end; both numbers must be one-based and fit a `usize`.
pub open spec fn report_value(s: Seq<u8>) -> Option<(int, int)> {
    let e = find_byte(s, 27);
    if e < 0 {
        None
    } else {
        let a = s.subrange(e + 1, s.len() as int);
        let r = find_digit(a);
        let m = find_byte(a, 59);
        if r < 0 || m < 0 || m <= r {
            None
        } else {
            let rowd = a.subrange(r, m);
            if !all_digits(rowd) {
                None
            } else {
                let t = a.subrange(m, a.len() as int);
                let c = find_digit(t);
                if c < 0 {
                    None
                } else {
                    let cold = t.subrange(c, t.len() as int);
                    if !all_digits(cold) {
                        None
                    } else {
                        let rv = dec_val(rowd);
                        let cv = dec_val(cold);
                        if rv < 1 || cv < 1 || rv > usize::MAX || cv > usize::MAX {
                            None
                        } else {
                            Some((rv - 1, cv - 1))
                        }
                    }
                }
            }
        }
    }
}

/// The first position at or after `from` where `v` holds `b`.
fn scan_byte(v: &Vec<u8>, from: usize, b: u8) -> (r: Option<usize>)
    requires
        from <= v@.len(),
    ensures
        match r {
            Some(i) => from <= i < v@.len() && v@[i as int] == b && (forall|j: int|
                from <= j < i ==> v@[j] != b),
            None => forall|j: int| from <= j < v@.len() ==> v@[j] != b,
        },
{
    let mut k = from;
    while k < v.len()
        invariant
            from <= k <= v@.len(),
            forall|j: int| from <= j < k ==> v@[j] != b,
        decreases v@.len() - k,
    {
        if v[k] == b {
            return Some(k);
        }
        k = k + 1;
    }
    None
}

/// The first position at or after `from` where `v` holds an ASCII digit.
fn scan_digit(v: &Vec<u8>, from: usize) -> (r: Option<usize>)
    requires
        from <= v@.len(),
    ensures
        match r {
            Some(i) => from <= i < v@.len() && is_ascii_digit(v@[i as int]) && (forall|j: int|
                from <= j < i ==> !is_ascii_digit(v@[j])),
            None => forall|j: int| from <= j < v@.len() ==> !is_ascii_digit(v@[j]),
        },
{
    let mut k = from;
    while k < v.len()
        invariant
            from <= k <= v@.len(),
            forall|j: int| from <= j < k ==> !is_ascii_digit(v@[j]),
        decreases v@.len() - k,
    {
        let c = v[k];
        if 48 <= c && c <= 57 {
            return Some(k);
        }
        k = k + 1;
    }
    None
}

/// Read `v[from .. to]` as a decimal number. `None` when a byte is not a
/// digit or the value does not fit a `usize`.
fn parse_decimal(v: &Vec<u8>, from: usize, to: usize) -> (r: Option<usize>)
    requires
        from < to <= v@.len(),
    ensures
        match r {
            Some(val) => all_digits(v@.subrange(from as int, to as int)) && dec_val(
                v@.subrange(from as int, to as int),
            ) == val,
            None => !all_digits(v@.subrange(from as int, to as int)) || dec_val(
                v@.subrange(from as int, to as int),
            ) > usize::MAX,
        },
{
    let ghost piece = v@.subrange(from as int, to as int);
    let mut val: usize = 0;
    let mut k = from;
    proof {
        assert(v@.subrange(from as int, from as int) =~= Seq::<u8>::empty());
    }
    while k < to
        invariant
            from <= k <= to <= v@.len(),
            piece == v@.subrange(from as int, to as int),
            all_digits(v@.subrange(from as int, k as int)),
            dec_val(v@.subrange(from as int, k as int)) == val,
        decreases to - k,
    {
        let b = v[k];
        if b < 48 || b > 57 {
            proof {
                assert(!is_ascii_digit(piece[k - from]));
            }
            return None;
        }
        let d = (b - 48) as usize;
        let ghost prefix = v@.subrange(from as int, k + 1);
        proof {
            assert(prefix.drop_last() =~= v@.subrange(from as int, k as int));
            assert(prefix.last() == b);
            assert(all_digits(prefix));
            assert(dec_val(prefix) == val * 10 + d);
        }
        if val > (usize::MAX - d) / 10 {
            proof {
                lemma_fundamental_div_mod(usize::MAX - d, 10);
                assert(val * 10 + d > usize::MAX);
                if all_digits(piece) {
                    assert(piece.subrange(0, k + 1 - from) =~= prefix);
                    lemma_dec_val_prefix(piece, k + 1 - from);
                }
            }
            return None;
        }
        val = val * 10 + d;
        k = k + 1;
    }
    proof {
        assert(v@.subrange(from as int, k as int) =~= piece);
    }
    Some(val)
}

/// Parse a cursor-position report (the bytes before its final `R`) into a
/// zero-based screen position; see `report_value` for the exact grammar.
pub fn parse_cursor_report(resp: &Vec<u8>) -> (r: Option<Pos>)
    ensures
        match r {
            Some(p) => report_value(resp@) == Some((p.row as int, p.col as int)),
            None => report_value(resp@) is None,
        },
{
    let s = resp;
    let n = s.len();
    let ghost sv = resp@;
    // The first escape byte; stray bytes before it are skipped.
    let e = match scan_byte(s, 0, 27) {
        Some(e) => e,
        None => {
            proof {
                lemma_find_byte(sv, 27);
            }
            return None;
        },
    };
    proof {
        lemma_find_byte_unique(sv, 27, e as int);
    }
    let ghost a = sv.subrange(e + 1, sv.len() as int);
    // The row number: the first digit run, which must end at the first `;`.
    let r = match scan_digit(s, e + 1) {
        Some(r) => r,
        None => {
            proof {
                lemma_find_digit(a);
                assert(forall|j: int| 0 <= j < a.len() ==> a[j] == sv[e + 1 + j]);
            }
            return None;
        },
    };
    let m = match scan_byte(s, e + 1, 59) {
        Some(m) => m,
        None => {
            proof {
                lemma_find_byte_none(a, 59);
                lemma_find_digit(a);
            }
            return None;
        },
    };
    proof {
        assert(forall|j: int| 0 <= j < a.len() ==> a[j] == sv[e + 1 + j]);
        lemma_find_digit_unique(a, r - (e + 1));
        lemma_find_byte_unique(a, 59, m - (e + 1));
    }
    if m <= r {
        return None;
    }
    let ghost rowd = a.subrange(r - (e + 1), m - (e + 1));
    proof {
        assert(rowd =~= sv.subrange(r as int, m as int));
    }
    let row_val = match parse_decimal(s, r, m) {
        Some(v) => v,
        None => {
            return None;
        },
    };
    // The column number: the first digit run after the `;`, which must reach
    // the end.
    let ghost t = a.subrange(m - (e + 1), a.len() as int);
    let c = match scan_digit(s, m) {
        Some(c) => c,
        None => {
            proof {
                lemma_find_digit(t);
                assert(forall|j: int| 0 <= j < t.len() ==> t[j] == sv[m + j]);
            }
            return None;
        },
    };
    proof {
        assert(forall|j: int| 0 <= j < t.len() ==> t[j] == sv[m + j]);
        lemma_find_digit_unique(t, c - m);
    }
    let ghost cold = t.subrange(c - m, t.len() as int);
    proof {
        assert(cold =~= sv.subrange(c as int, sv.len() as int));
    }
    let col_val = match parse_decimal(s, c, n) {
        Some(v) => v,
        None => {
            return None;
        },
    };
    if row_val == 0 || col_val == 0 {
        return None;
    }
    Some(Pos { row: row_val - 1, col: col_val - 1 })
}

} // verus!
