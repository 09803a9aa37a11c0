//! Byte-level matching primitives for the phrase grammar.
//!
//! Phrases are matched on their bytes; vocabulary is ASCII.  A word
//! character is a letter, digit or underscore; vocabulary entries whose
//! edge touches a word character require a word boundary there, so that
//! "week" does not match inside "weekend".  A space inside a vocabulary
//! entry stands for one or more whitespace characters.

use vstd::prelude::*;
use vstd::string::StringSliceAdditionalSpecFns;

verus! {

/// A word byte: a letter, a digit or an underscore.
pub open spec fn spec_word_byte(b: u8) -> bool {
    (48 <= b <= 57) || (65 <= b <= 90) || (97 <= b <= 122) || b == 95
}

/// A whitespace byte.
pub open spec fn spec_ws_byte(b: u8) -> bool {
    b == 32 || b == 9 || b == 10 || b == 13 || b == 11 || b == 12
}

/// ASCII case folding of one byte.
pub open spec fn spec_fold(b: u8) -> u8 {
    if 65 <= b <= 90 {
        (b + 32) as u8
    } else {
        b
    }
}

/// The position after the whitespace run starting at `i`.
pub open spec fn spec_ws_end(s: Seq<u8>, i: int) -> int
    decreases s.len() - i,
{
    if 0 <= i < s.len() && spec_ws_byte(s[i]) {
        spec_ws_end(s, i + 1)
    } else {
        i
    }
}

/// Where the literal `w`, read from index `wi` on, matches `s` at `si`:
/// a space in the literal stands for one or more whitespace bytes, any
/// other byte is compared directly, folding ASCII case when `ci` holds.
pub open spec fn spec_lit_end(s: Seq<u8>, si: int, w: Seq<u8>, wi: int, ci: bool) -> Option<int>
    decreases w.len() - wi,
{
    if wi < 0 || wi >= w.len() {
        Some(si)
    } else if w[wi] == 32 {
        if 0 <= si < s.len() && spec_ws_byte(s[si]) {
            spec_lit_end(s, spec_ws_end(s, si), w, wi + 1, ci)
        } else {
            None
        }
    } else {
        if 0 <= si < s.len() && (if ci {
            spec_fold(s[si])
        } else {
            s[si]
        }) == (if ci {
            spec_fold(w[wi])
        } else {
            w[wi]
        }) {
            spec_lit_end(s, si + 1, w, wi + 1, ci)
        } else {
            None
        }
    }
}

/// Whether the literal `w` matches `s` at `i`, and where the match
/// ends.  `lb` and `rb` demand a word boundary on the corresponding
/// side when the literal's edge byte is a word byte.
pub open spec fn spec_match_word(
    s: Seq<u8>,
    i: int,
    w: Seq<u8>,
    ci: bool,
    lb: bool,
    rb: bool,
) -> Option<int> {
    if w.len() == 0 {
        Some(i)
    } else if lb && spec_word_byte(w[0]) && i > 0 && i <= s.len() && spec_word_byte(s[i - 1]) {
        None
    } else {
        match spec_lit_end(s, i, w, 0, ci) {
            None => None,
            Some(e) => if rb && spec_word_byte(w[w.len() - 1]) && e < s.len() && spec_word_byte(
                s[e],
            ) {
                None
            } else {
                Some(e)
            },
        }
    }
}

/// Whether the word-bounded, case-folded literal `w` matches `s` at `i`.
pub open spec fn spec_word_at(s: Seq<u8>, i: int, w: &str) -> Option<int> {
    spec_match_word(s, i, w.spec_bytes(), true, true, true)
}

/// Whether `b` is a word byte: a letter, a digit or an underscore.
pub(crate) fn is_word_byte(b: u8) -> (r: bool)
    ensures
        r == spec_word_byte(b),
{
    (b >= 48 && b <= 57) || (b >= 65 && b <= 90) || (b >= 97 && b <= 122) || b == 95
}

/// Whether `b` is a whitespace byte.
pub(crate) fn is_ws_byte(b: u8) -> (r: bool)
    ensures
        r == spec_ws_byte(b),
{
    b == 32 || b == 9 || b == 10 || b == 13 || b == 11 || b == 12
}

/// A decimal digit byte.
pub open spec fn spec_digit_byte(b: u8) -> bool {
    48 <= b <= 57
}

/// The position after the digit run starting at `i`.
pub open spec fn spec_digit_run_end(s: Seq<u8>, i: int) -> int
    decreases s.len() - i,
{
    if 0 <= i < s.len() && spec_digit_byte(s[i]) {
        spec_digit_run_end(s, i + 1)
    } else {
        i
    }
}

/// The value of the digits in `s[i..j]` folded onto `acc`, or nothing
/// when a byte is not a digit or the value leaves the 32-bit range.
pub open spec fn spec_digits_fold(s: Seq<u8>, i: int, j: int, acc: int) -> Option<int>
    decreases j - i,
{
    if i >= j {
        Some(acc)
    } else {
        let b = if 0 <= i < s.len() {
            s[i]
        } else {
            0
        };
        if !spec_digit_byte(b) {
            None
        } else if acc * 10 + (b - 48) > 0xffffffff {
            None
        } else {
            spec_digits_fold(s, i + 1, j, acc * 10 + (b - 48))
        }
    }
}

/// The value of the digits in `s[i..j]`, when they all are digits and
/// the value fits in 32 bits.
pub open spec fn spec_digits_value(s: Seq<u8>, i: int, j: int) -> Option<int> {
    spec_digits_fold(s, i, j, 0)
}

/// Whether `b` is a decimal digit.
pub(crate) fn is_digit_byte(b: u8) -> (r: bool)
    ensures
        r == spec_digit_byte(b),
{
    b >= 48 && b <= 57
}

/// The byte at `i`, or zero past the end (specification).
pub open spec fn spec_at(s: Seq<u8>, i: int) -> u8 {
    if 0 <= i < s.len() {
        s[i]
    } else {
        0
    }
}

/// The byte at `i`, or zero past the end.
pub(crate) fn at(s: &[u8], i: usize) -> (r: u8)
    ensures
        r == spec_at(s@, i as int),
{
    if i < s.len() {
        s[i]
    } else {
        0
    }
}

/// ASCII lower case.
pub(crate) fn to_lower(b: u8) -> (r: u8)
    ensures
        r == spec_fold(b),
{
    if b >= 65 && b <= 90 {
        b + 32
    } else {
        b
    }
}

/// The position after the whitespace run starting at `i`.
pub(crate) fn skip_ws(s: &[u8], i: usize) -> (r: usize)
    ensures
        i <= r,
        r == spec_ws_end(s@, i as int),
{
    let mut j = i;
    while j < s.len() && is_ws_byte(s[j])
        invariant
            i <= j,
            spec_ws_end(s@, j as int) == spec_ws_end(s@, i as int),
        decreases s.len() - j,
    {
        j = j + 1;
    }
    j
}

/// Whether everything from `i` on is whitespace.
pub(crate) fn only_ws_left(s: &[u8], i: usize) -> (r: bool)
    ensures
        r == (spec_ws_end(s@, i as int) >= s.len()),
{
    skip_ws(s, i) >= s.len()
}

/// Matches the literal `w` at position `i`.  With `ci` the comparison
/// folds ASCII case; a space in `w` matches one or more whitespace
/// bytes; `lb` and `rb` ask for a word boundary on the corresponding
/// side when the literal's edge is a word character.  Returns the end
/// position of the match.
pub(crate) fn match_word(s: &[u8], i: usize, w: &str, ci: bool, lb: bool, rb: bool) -> (r: Option<
    usize,
>)
    ensures
        r is Some ==> i <= r->0,
        r is Some <==> spec_match_word(s@, i as int, w.spec_bytes(), ci, lb, rb) is Some,
        r is Some ==> r->0 as int == spec_match_word(s@, i as int, w.spec_bytes(), ci, lb, rb)->0,
{
    let wb = w.as_bytes();
    if wb.len() == 0 {
        return Some(i);
    }
    if lb && is_word_byte(wb[0]) && i > 0 && i <= s.len() && is_word_byte(s[i - 1]) {
        return None;
    }
    let mut si = i;
    let mut wi: usize = 0;
    while wi < wb.len()
        invariant
            i <= si,
            wi <= wb.len(),
            wb@ == w.spec_bytes(),
            spec_lit_end(s@, si as int, wb@, wi as int, ci) == spec_lit_end(
                s@,
                i as int,
                wb@,
                0,
                ci,
            ),
        decreases wb.len() - wi,
    {
        let wc = wb[wi];
        if wc == 32 {
            if si >= s.len() || !is_ws_byte(s[si]) {
                return None;
            }
            let ghost si0 = si as int;
            while si < s.len() && is_ws_byte(s[si])
                invariant
                    i <= si,
                    spec_ws_end(s@, si as int) == spec_ws_end(s@, si0),
                decreases s.len() - si,
            {
                si = si + 1;
            }
        } else {
            if si >= s.len() {
                return None;
            }
            let sc = if ci {
                to_lower(s[si])
            } else {
                s[si]
            };
            let wc2 = if ci {
                to_lower(wc)
            } else {
                wc
            };
            if sc != wc2 {
                return None;
            }
            si = si + 1;
        }
        wi = wi + 1;
    }
    if rb && is_word_byte(wb[wb.len() - 1]) && si < s.len() && is_word_byte(s[si]) {
        return None;
    }
    Some(si)
}

/// Matches a case-insensitive, word-bounded vocabulary entry.
pub(crate) fn word(s: &[u8], i: usize, w: &str) -> (r: Option<usize>)
    ensures
        r is Some ==> i <= r->0,
        r is Some <==> spec_word_at(s@, i as int, w) is Some,
        r is Some ==> r->0 as int == spec_word_at(s@, i as int, w)->0,
{
    match_word(s, i, w, true, true, true)
}

/// The end of the digit run starting at `i`.
pub(crate) fn digit_run_end(s: &[u8], i: usize) -> (r: usize)
    ensures
        i <= r,
        r <= s.len() || r == i,
        r == spec_digit_run_end(s@, i as int),
{
    if i >= s.len() {
        return i;
    }
    let mut j = i;
    while j < s.len() && is_digit_byte(s[j])
        invariant
            i <= j <= s.len(),
            spec_digit_run_end(s@, j as int) == spec_digit_run_end(s@, i as int),
        decreases s.len() - j,
    {
        j = j + 1;
    }
    j
}

/// The value of the digits in `s[i..j]`, or `None` when it does not fit
/// in a `u32`.
pub(crate) fn digits_value(s: &[u8], i: usize, j: usize) -> (r: Option<u32>)
    ensures
        r is Some <==> spec_digits_value(s@, i as int, j as int) is Some,
        r is Some ==> r->0 as int == spec_digits_value(s@, i as int, j as int)->0,
{
    let mut k = i;
    let mut v: u64 = 0;
    while k < j
        invariant
            v <= 0xffffffff,
            i <= k,
            spec_digits_fold(s@, k as int, j as int, v as int) == spec_digits_value(
                s@,
                i as int,
                j as int,
            ),
        decreases j - k,
    {
        let b = at(s, k);
        if !is_digit_byte(b) {
            return None;
        }
        v = v * 10 + ((b - 48) as u64);
        if v > 0xffffffff {
            return None;
        }
        k = k + 1;
    }
    Some(v as u32)
}

} // verus!
