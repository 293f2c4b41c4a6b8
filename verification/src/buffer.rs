//! Building the text buffer: splitting a file's bytes into logical lines on
//! line-feed bytes. A trailing line feed yields a trailing empty line, and an
//! empty input yields one empty line, so the buffer is never empty.

use vstd::prelude::*;
use crate::scan::find_byte;
use crate::scan::lemma_find_byte;
use crate::scan::lemma_find_byte_none;
use crate::scan::lemma_find_byte_unique;

verus! {

/// The lines of `s`, split on the line-feed byte: the bytes before the first
/// line feed, then the lines of what follows it; the whole of `s` when it
/// holds no line feed. Never empty, and no piece holds a line feed.
pub open spec fn split_lines_spec(s: Seq<u8>) -> Seq<Seq<u8>>
    decreases s.len(),
{
    let i = find_byte(s, 10);
    if i < 0 || i >= s.len() {
        seq![s]
    } else {
        seq![s.subrange(0, i)] + split_lines_spec(s.subrange(i + 1, s.len() as int))
    }
}

/// No piece of a split holds a line feed.
pub proof fn lemma_split_pieces_no_line_feed(s: Seq<u8>)
    ensures
        forall|i: int, j: int|
            0 <= i < split_lines_spec(s).len() && 0 <= j < split_lines_spec(s)[i].len()
                ==> #[trigger] split_lines_spec(s)[i][j] != 10u8,
    decreases s.len(),
{
    let f = find_byte(s, 10);
    lemma_find_byte(s, 10);
    if 0 <= f < s.len() {
        let tail = s.subrange(f + 1, s.len() as int);
        lemma_split_pieces_no_line_feed(tail);
        assert forall|i: int, j: int|
            0 <= i < split_lines_spec(s).len() && 0 <= j
                < split_lines_spec(s)[i].len() implies #[trigger] split_lines_spec(s)[i][j]
            != 10u8 by {
            if i >= 1 {
                assert(split_lines_spec(s)[i] == split_lines_spec(tail)[i - 1]);
            }
        }
    }
}

/// No piece of a split is longer than what was split.
pub proof fn lemma_split_pieces_len(s: Seq<u8>)
    ensures
        forall|i: int|
            0 <= i < split_lines_spec(s).len() ==> #[trigger] split_lines_spec(s)[i].len()
                <= s.len(),
    decreases s.len(),
{
    let f = find_byte(s, 10);
    lemma_find_byte(s, 10);
    if 0 <= f < s.len() {
        let tail = s.subrange(f + 1, s.len() as int);
        lemma_split_pieces_len(tail);
        assert forall|i: int|
            0 <= i < split_lines_spec(s).len() implies #[trigger] split_lines_spec(s)[i].len()
            <= s.len() by {
            if i >= 1 {
                assert(split_lines_spec(s)[i] == split_lines_spec(tail)[i - 1]);
            }
        }
    }
}

/// Split a buffer's bytes into logical lines on line-feed bytes (see
/// `split_lines_spec`). The buffer must leave room for the wrap arithmetic on
/// each line.
pub fn split_lines(buf: &Vec<u8>) -> (r: Vec<Vec<u8>>)
    requires
        buf@.len() <= usize::MAX / 2,
    ensures
        Seq::new(r@.len(), |i: int| r@[i]@) == split_lines_spec(buf@),
        r@.len() >= 1,
        forall|i: int| 0 <= i < r@.len() ==> #[trigger] r@[i]@.len() <= usize::MAX / 2,
{
    let ghost sv = buf@;
    let mut acc: Vec<Vec<u8>> = Vec::new();
    let mut cur: Vec<u8> = Vec::new();
    let mut k: usize = 0;
    let n = buf.len();
    proof {
        assert(cur@ + sv.subrange(0, sv.len() as int) =~= sv);
    }
    while k < n
        invariant
            k <= n == sv.len(),
            sv == buf@,
            sv.len() <= usize::MAX / 2,
            cur@.len() <= k,
            forall|j: int| 0 <= j < cur@.len() ==> cur@[j] != 10u8,
            forall|i: int| 0 <= i < acc@.len() ==> #[trigger] acc@[i]@.len() <= usize::MAX / 2,
            split_lines_spec(sv) == Seq::new(acc@.len(), |i: int| acc@[i]@) + split_lines_spec(
                cur@ + sv.subrange(k as int, sv.len() as int),
            ),
        decreases n - k,
    {
        let b = buf[k];
        let ghost oldcur = cur@;
        if b == 10 {
            let ghost rest = oldcur + sv.subrange(k as int, sv.len() as int);
            let ghost tail = sv.subrange(k + 1, sv.len() as int);
            proof {
                lemma_find_byte_unique(rest, 10, oldcur.len() as int);
                assert(rest.subrange(0, oldcur.len() as int) =~= oldcur);
                assert(rest.subrange(oldcur.len() as int + 1, rest.len() as int) =~= tail);
                assert(split_lines_spec(rest) == seq![oldcur] + split_lines_spec(tail));
            }
            let ghost acc0 = acc@;
            acc.push(cur);
            cur = Vec::new();
            proof {
                assert(Seq::new(acc@.len(), |i: int| acc@[i]@) =~~= Seq::new(
                    acc0.len(),
                    |i: int| acc0[i]@,
                ) + seq![oldcur]);
                assert(cur@ + tail =~= tail);
                assert(split_lines_spec(sv) =~~= Seq::new(acc@.len(), |i: int| acc@[i]@)
                    + split_lines_spec(cur@ + tail));
            }
        } else {
            cur.push(b);
            proof {
                assert(cur@ + sv.subrange(k + 1, sv.len() as int) =~= oldcur + sv.subrange(
                    k as int,
                    sv.len() as int,
                ));
            }
        }
        k = k + 1;
    }
    proof {
        assert(cur@ + sv.subrange(k as int, sv.len() as int) =~= cur@);
        lemma_find_byte_none(cur@, 10);
    }
    let ghost acc0 = acc@;
    let ghost last = cur@;
    acc.push(cur);
    proof {
        assert(split_lines_spec(last) == seq![last]);
        assert(Seq::new(acc@.len(), |i: int| acc@[i]@) =~~= Seq::new(acc0.len(), |i: int| acc0[i]@)
            + seq![last]);
        assert(Seq::new(acc@.len(), |i: int| acc@[i]@) =~~= split_lines_spec(sv));
    }
    acc
}

} // verus!
