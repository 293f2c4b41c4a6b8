//! Scanning and reading byte sequences: first occurrence of a byte or of an
//! ASCII digit, and the value of a run of decimal digits.

use vstd::prelude::*;
use crate::keys::is_ascii_digit;

verus! {

/// The index of the first occurrence of `b` in `s`, or `-1` when `s` does not
/// contain `b`.
pub open spec fn find_byte(s: Seq<u8>, b: u8) -> int
    decreases s.len(),
{
    if s.len() == 0 {
        -1
    } else if s[0] == b {
        0
    } else {
        let r = find_byte(s.drop_first(), b);
        if r < 0 {
            -1
        } else {
            r + 1
        }
    }
}

/// The index of the first ASCII digit in `s`, or `-1` when there is none.
pub open spec fn find_digit(s: Seq<u8>) -> int
    decreases s.len(),
{
    if s.len() == 0 {
        -1
    } else if is_ascii_digit(s[0]) {
        0
    } else {
        let r = find_digit(s.drop_first());
        if r < 0 {
            -1
        } else {
            r + 1
        }
    }
}

/// What `find_byte` returns: the first occurrence when there is one, `-1`
/// otherwise.
pub proof fn lemma_find_byte(s: Seq<u8>, b: u8)
    ensures
        find_byte(s, b) >= 0 ==> 0 <= find_byte(s, b) < s.len() && s[find_byte(s, b)] == b
            && (forall|j: int| 0 <= j < find_byte(s, b) ==> s[j] != b),
        find_byte(s, b) < 0 ==> forall|j: int| 0 <= j < s.len() ==> s[j] != b,
    decreases s.len(),
{
    if s.len() > 0 && s[0] != b {
        lemma_find_byte(s.drop_first(), b);
        assert forall|j: int| 1 <= j < s.len() implies s.drop_first()[j - 1] == s[j] by {}
    }
}

/// A position known to be the first occurrence of `b` is where `find_byte`
/// points.
pub proof fn lemma_find_byte_unique(s: Seq<u8>, b: u8, i: int)
    requires
        0 <= i < s.len(),
        s[i] == b,
        forall|j: int| 0 <= j < i ==> s[j] != b,
    ensures
        find_byte(s, b) == i,
{
    lemma_find_byte(s, b);
}

/// A sequence without `b` has no first occurrence of it.
pub proof fn lemma_find_byte_none(s: Seq<u8>, b: u8)
    requires
        forall|j: int| 0 <= j < s.len() ==> s[j] != b,
    ensures
        find_byte(s, b) < 0,
{
    lemma_find_byte(s, b);
}

/// What `find_digit` returns: the first digit position when there is one,
/// `-1` otherwise.
pub proof fn lemma_find_digit(s: Seq<u8>)
    ensures
        find_digit(s) >= 0 ==> 0 <= find_digit(s) < s.len() && is_ascii_digit(s[find_digit(s)])
            && (forall|j: int| 0 <= j < find_digit(s) ==> !is_ascii_digit(s[j])),
        find_digit(s) < 0 ==> forall|j: int| 0 <= j < s.len() ==> !is_ascii_digit(s[j]),
    decreases s.len(),
{
    if s.len() > 0 && !is_ascii_digit(s[0]) {
        lemma_find_digit(s.drop_first());
        assert forall|j: int| 1 <= j < s.len() implies s.drop_first()[j - 1] == s[j] by {}
    }
}

/// A position known to be the first digit is where `find_digit` points.
pub proof fn lemma_find_digit_unique(s: Seq<u8>, i: int)
    requires
        0 <= i < s.len(),
        is_ascii_digit(s[i]),
        forall|j: int| 0 <= j < i ==> !is_ascii_digit(s[j]),
    ensures
        find_digit(s) == i,
{
    lemma_find_digit(s);
}

/// Every byte of `s` is an ASCII digit.
pub open spec fn all_digits(s: Seq<u8>) -> bool {
    forall|i: int| 0 <= i < s.len() ==> is_ascii_digit(#[trigger] s[i])
}

/// The value of `s` read as decimal digits, most significant first (an empty
/// sequence reads as zero).
pub open spec fn dec_val(s: Seq<u8>) -> int
    decreases s.len(),
{
    if s.len() == 0 {
        0
    } else {
        dec_val(s.drop_last()) * 10 + (s.last() - 48)
    }
}

/// A run of digits is worth no less than any of its prefixes, and no less
/// than zero.
pub proof fn lemma_dec_val_prefix(s: Seq<u8>, k: int)
    requires
        all_digits(s),
        0 <= k <= s.len(),
    ensures
        0 <= dec_val(s.subrange(0, k)) <= dec_val(s),
    decreases s.len() - k,
{
    if k == s.len() {
        assert(s.subrange(0, k) =~= s);
        lemma_dec_val_nonneg(s);
    } else {
        lemma_dec_val_prefix(s, k + 1);
        let p = s.subrange(0, k + 1);
        assert(p.drop_last() =~= s.subrange(0, k));
        lemma_dec_val_nonneg(s.subrange(0, k));
    }
}

/// Digits never read as a negative value.
pub proof fn lemma_dec_val_nonneg(s: Seq<u8>)
    requires
        all_digits(s),
    ensures
        dec_val(s) >= 0,
    decreases s.len(),
{
    if s.len() > 0 {
        assert(all_digits(s.drop_last())) by {
            assert(forall|i: int| 0 <= i < s.len() - 1 ==> s.drop_last()[i] == s[i]);
        }
        lemma_dec_val_nonneg(s.drop_last());
    }
}

} // verus!
