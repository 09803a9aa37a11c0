//! The phrase grammar: recognizes an English time expression and builds
//! the tagged tree the resolver consumes.
//!
//! Each rule returns every match it allows at a position, most preferred
//! first; the entry point takes the first reading that covers the whole
//! phrase.  Alternatives are ordered as the grammar lists them, and a
//! vocabulary entry prefers its longest form.

use vstd::prelude::*;
use vstd::string::StringSliceAdditionalSpecFns;

use crate::ast::{
    AdjustAst, AdverbDay, DateAst, DirAst, FragmentAst, ModAst, ModPeriodAst, MomentAst,
    OrdDay, PeriodAst, PointAst, RelativeDayAst, RomanDay, SomeDayAst, SpecTimeAst, TimeAst,
    TimeExpr, UnitAst, YearAst,
};
use crate::lexer::{
    at, digit_run_end, digits_value, is_digit_byte, is_word_byte, match_word, only_ws_left,
    skip_ws, spec_word_at, spec_ws_end, word,
};

verus! {

// ---------------------------------------------------------------------
// vocabulary
// ---------------------------------------------------------------------

/// Whether the case-sensitive literal `w`, allowed to follow a word
/// byte directly but bounded on the right, matches `s` at `i`.
pub open spec fn spec_suffix_word_at(s: Seq<u8>, i: int, w: &str) -> Option<int> {
    crate::lexer::spec_match_word(s, i, w.spec_bytes(), false, false, true)
}

/// The weekday a single case-sensitive letter denotes: M T W R F S U.
pub open spec fn spec_letter_weekday(b: u8) -> Option<u8> {
    if b == 77 {
        Some(0u8)  // M
    } else if b == 84 {
        Some(1u8)  // T
    } else if b == 87 {
        Some(2u8)  // W
    } else if b == 82 {
        Some(3u8)  // R
    } else if b == 70 {
        Some(4u8)  // F
    } else if b == 83 {
        Some(5u8)  // S
    } else if b == 85 {
        Some(6u8)  // U
    } else {
        None
    }
}

/// The reading of a single word-bounded weekday letter at `i`, as a
/// sequence of at most one position and weekday (specification).
pub open spec fn spec_weekday_letter(s: Seq<u8>, i: int) -> Seq<(usize, u8)> {
    if 0 <= i < s.len() && spec_letter_weekday(s[i]) is Some && !(i > 0
        && crate::lexer::spec_word_byte(s[i - 1])) && !(i + 1 < s.len()
        && crate::lexer::spec_word_byte(s[i + 1])) {
        seq![((i + 1) as usize, spec_letter_weekday(s[i])->0)]
    } else {
        Seq::empty()
    }
}

/// A single weekday letter, case-sensitive: M T W R F S U.
fn weekday_letter(s: &[u8], i: usize) -> (r: Option<(usize, u8)>)
    ensures
        match r {
            Some(p) => spec_weekday_letter(s@, i as int) == seq![p],
            None => spec_weekday_letter(s@, i as int) == Seq::<(usize, u8)>::empty(),
        },
{
    if i >= s.len() {
        return None;
    }
    let b = s[i];
    let wd: u8 = if b == 77 {
        0  // M
    } else if b == 84 {
        1  // T
    } else if b == 87 {
        2  // W
    } else if b == 82 {
        3  // R
    } else if b == 70 {
        4  // F
    } else if b == 83 {
        5  // S
    } else if b == 85 {
        6  // U
    } else {
        return None;
    };
    if i > 0 && is_word_byte(s[i - 1]) {
        return None;
    }
    if i + 1 < s.len() && is_word_byte(s[i + 1]) {
        return None;
    }
    Some((i + 1, wd))
}

/// All readings of a weekday name at `i` (specification): the single
/// letter, then every name form that matches, longest first per day.
#[verifier::opaque]
pub open spec fn spec_a_day(s: Seq<u8>, i: int) -> Seq<(usize, u8)> {
    (Seq::empty() + spec_weekday_letter(s, i))
        .add(spec_entry(s, i, "sunday", 6u8, true, true, true))
        .add(spec_entry(s, i, "sun.", 6u8, true, true, true))
        .add(spec_entry(s, i, "sun", 6u8, true, true, true))
        .add(spec_entry(s, i, "su.", 6u8, true, true, true))
        .add(spec_entry(s, i, "su", 6u8, true, true, true))
        .add(spec_entry(s, i, "monday", 0u8, true, true, true))
        .add(spec_entry(s, i, "mon.", 0u8, true, true, true))
        .add(spec_entry(s, i, "mon", 0u8, true, true, true))
        .add(spec_entry(s, i, "mo.", 0u8, true, true, true))
        .add(spec_entry(s, i, "mo", 0u8, true, true, true))
        .add(spec_entry(s, i, "tuesday", 1u8, true, true, true))
        .add(spec_entry(s, i, "tues.", 1u8, true, true, true))
        .add(spec_entry(s, i, "tues", 1u8, true, true, true))
        .add(spec_entry(s, i, "tue.", 1u8, true, true, true))
        .add(spec_entry(s, i, "tue", 1u8, true, true, true))
        .add(spec_entry(s, i, "tu.", 1u8, true, true, true))
        .add(spec_entry(s, i, "tu", 1u8, true, true, true))
        .add(spec_entry(s, i, "wednesday", 2u8, true, true, true))
        .add(spec_entry(s, i, "weds.", 2u8, true, true, true))
        .add(spec_entry(s, i, "weds", 2u8, true, true, true))
        .add(spec_entry(s, i, "wed.", 2u8, true, true, true))
        .add(spec_entry(s, i, "wed", 2u8, true, true, true))
        .add(spec_entry(s, i, "we.", 2u8, true, true, true))
        .add(spec_entry(s, i, "we", 2u8, true, true, true))
        .add(spec_entry(s, i, "thursday", 3u8, true, true, true))
        .add(spec_entry(s, i, "thurs.", 3u8, true, true, true))
        .add(spec_entry(s, i, "thurs", 3u8, true, true, true))
        .add(spec_entry(s, i, "thu.", 3u8, true, true, true))
        .add(spec_entry(s, i, "thu", 3u8, true, true, true))
        .add(spec_entry(s, i, "th.", 3u8, true, true, true))
        .add(spec_entry(s, i, "th", 3u8, true, true, true))
        .add(spec_entry(s, i, "friday", 4u8, true, true, true))
        .add(spec_entry(s, i, "fri.", 4u8, true, true, true))
        .add(spec_entry(s, i, "fri", 4u8, true, true, true))
        .add(spec_entry(s, i, "fr.", 4u8, true, true, true))
        .add(spec_entry(s, i, "fr", 4u8, true, true, true))
        .add(spec_entry(s, i, "saturday", 5u8, true, true, true))
        .add(spec_entry(s, i, "sat.", 5u8, true, true, true))
        .add(spec_entry(s, i, "sat", 5u8, true, true, true))
        .add(spec_entry(s, i, "sa.", 5u8, true, true, true))
        .add(spec_entry(s, i, "sa", 5u8, true, true, true))
}

/// All readings of a weekday name at `i`, longest first.
fn a_day(s: &[u8], i: usize) -> (v: Vec<(usize, u8)>)
    ensures
        v@ == spec_a_day(s@, i as int),
{
    proof {
        reveal(spec_a_day);
    }
    let mut v: Vec<(usize, u8)> = Vec::new();
    match weekday_letter(s, i) {
        Some(p) => {
            v.push(p);
        },
        None => {},
    }
    proof {
        assert(v@ =~= Seq::empty() + spec_weekday_letter(s@, i as int));
    }
    push_entry(&mut v, s, i, "sunday", 6u8, true, true, true);
    push_entry(&mut v, s, i, "sun.", 6u8, true, true, true);
    push_entry(&mut v, s, i, "sun", 6u8, true, true, true);
    push_entry(&mut v, s, i, "su.", 6u8, true, true, true);
    push_entry(&mut v, s, i, "su", 6u8, true, true, true);
    push_entry(&mut v, s, i, "monday", 0u8, true, true, true);
    push_entry(&mut v, s, i, "mon.", 0u8, true, true, true);
    push_entry(&mut v, s, i, "mon", 0u8, true, true, true);
    push_entry(&mut v, s, i, "mo.", 0u8, true, true, true);
    push_entry(&mut v, s, i, "mo", 0u8, true, true, true);
    push_entry(&mut v, s, i, "tuesday", 1u8, true, true, true);
    push_entry(&mut v, s, i, "tues.", 1u8, true, true, true);
    push_entry(&mut v, s, i, "tues", 1u8, true, true, true);
    push_entry(&mut v, s, i, "tue.", 1u8, true, true, true);
    push_entry(&mut v, s, i, "tue", 1u8, true, true, true);
    push_entry(&mut v, s, i, "tu.", 1u8, true, true, true);
    push_entry(&mut v, s, i, "tu", 1u8, true, true, true);
    push_entry(&mut v, s, i, "wednesday", 2u8, true, true, true);
    push_entry(&mut v, s, i, "weds.", 2u8, true, true, true);
    push_entry(&mut v, s, i, "weds", 2u8, true, true, true);
    push_entry(&mut v, s, i, "wed.", 2u8, true, true, true);
    push_entry(&mut v, s, i, "wed", 2u8, true, true, true);
    push_entry(&mut v, s, i, "we.", 2u8, true, true, true);
    push_entry(&mut v, s, i, "we", 2u8, true, true, true);
    push_entry(&mut v, s, i, "thursday", 3u8, true, true, true);
    push_entry(&mut v, s, i, "thurs.", 3u8, true, true, true);
    push_entry(&mut v, s, i, "thurs", 3u8, true, true, true);
    push_entry(&mut v, s, i, "thu.", 3u8, true, true, true);
    push_entry(&mut v, s, i, "thu", 3u8, true, true, true);
    push_entry(&mut v, s, i, "th.", 3u8, true, true, true);
    push_entry(&mut v, s, i, "th", 3u8, true, true, true);
    push_entry(&mut v, s, i, "friday", 4u8, true, true, true);
    push_entry(&mut v, s, i, "fri.", 4u8, true, true, true);
    push_entry(&mut v, s, i, "fri", 4u8, true, true, true);
    push_entry(&mut v, s, i, "fr.", 4u8, true, true, true);
    push_entry(&mut v, s, i, "fr", 4u8, true, true, true);
    push_entry(&mut v, s, i, "saturday", 5u8, true, true, true);
    push_entry(&mut v, s, i, "sat.", 5u8, true, true, true);
    push_entry(&mut v, s, i, "sat", 5u8, true, true, true);
    push_entry(&mut v, s, i, "sa.", 5u8, true, true, true);
    push_entry(&mut v, s, i, "sa", 5u8, true, true, true);
    v
}

/// The reading of one vocabulary entry as a one-element sequence of
/// position and value, or the empty sequence when the entry does not
/// match under the given case and boundary flags.
pub open spec fn spec_entry<T>(
    s: Seq<u8>,
    i: int,
    w: &str,
    val: T,
    ci: bool,
    lb: bool,
    rb: bool,
) -> Seq<(usize, T)> {
    match crate::lexer::spec_match_word(s, i, w.spec_bytes(), ci, lb, rb) {
        Some(j) => seq![(j as usize, val)],
        None => Seq::empty(),
    }
}

/// Appends the reading of one vocabulary entry, if it matches.
fn push_entry<T: Copy>(
    v: &mut Vec<(usize, T)>,
    s: &[u8],
    i: usize,
    w: &str,
    val: T,
    ci: bool,
    lb: bool,
    rb: bool,
)
    ensures
        final(v)@ == old(v)@ + spec_entry(s@, i as int, w, val, ci, lb, rb),
{
    match match_word(s, i, w, ci, lb, rb) {
        Some(j) => {
            v.push((j, val));
            proof {
                assert(v@ =~= old(v)@ + spec_entry(s@, i as int, w, val, ci, lb, rb));
            }
        },
        None => {
            proof {
                assert(v@ =~= old(v)@ + spec_entry(s@, i as int, w, val, ci, lb, rb));
            }
        },
    }
}

/// All readings of a month name at `i` (specification): every table
/// entry that matches, in the recognizer's order; months count from 1.
#[verifier::opaque]
pub open spec fn spec_a_month(s: Seq<u8>, i: int) -> Seq<(usize, u8)> {
    Seq::empty()
        .add(spec_entry(s, i, "january", 1u8, true, true, true))
        .add(spec_entry(s, i, "jan", 1u8, true, true, true))
        .add(spec_entry(s, i, "february", 2u8, true, true, true))
        .add(spec_entry(s, i, "feb", 2u8, true, true, true))
        .add(spec_entry(s, i, "march", 3u8, true, true, true))
        .add(spec_entry(s, i, "mar", 3u8, true, true, true))
        .add(spec_entry(s, i, "april", 4u8, true, true, true))
        .add(spec_entry(s, i, "apr", 4u8, true, true, true))
        .add(spec_entry(s, i, "may", 5u8, true, true, true))
        .add(spec_entry(s, i, "june", 6u8, true, true, true))
        .add(spec_entry(s, i, "jun", 6u8, true, true, true))
        .add(spec_entry(s, i, "july", 7u8, true, true, true))
        .add(spec_entry(s, i, "jul", 7u8, true, true, true))
        .add(spec_entry(s, i, "august", 8u8, true, true, true))
        .add(spec_entry(s, i, "aug", 8u8, true, true, true))
        .add(spec_entry(s, i, "september", 9u8, true, true, true))
        .add(spec_entry(s, i, "sep", 9u8, true, true, true))
        .add(spec_entry(s, i, "october", 10u8, true, true, true))
        .add(spec_entry(s, i, "oct", 10u8, true, true, true))
        .add(spec_entry(s, i, "november", 11u8, true, true, true))
        .add(spec_entry(s, i, "nov", 11u8, true, true, true))
        .add(spec_entry(s, i, "december", 12u8, true, true, true))
        .add(spec_entry(s, i, "dec", 12u8, true, true, true))
}

/// All readings of a month name at `i`, longest first; months count
/// from 1.
fn a_month(s: &[u8], i: usize) -> (v: Vec<(usize, u8)>)
    ensures
        v@ == spec_a_month(s@, i as int),
{
    proof {
        reveal(spec_a_month);
    }
    let mut v: Vec<(usize, u8)> = Vec::new();
    push_entry(&mut v, s, i, "january", 1u8, true, true, true);
    push_entry(&mut v, s, i, "jan", 1u8, true, true, true);
    push_entry(&mut v, s, i, "february", 2u8, true, true, true);
    push_entry(&mut v, s, i, "feb", 2u8, true, true, true);
    push_entry(&mut v, s, i, "march", 3u8, true, true, true);
    push_entry(&mut v, s, i, "mar", 3u8, true, true, true);
    push_entry(&mut v, s, i, "april", 4u8, true, true, true);
    push_entry(&mut v, s, i, "apr", 4u8, true, true, true);
    push_entry(&mut v, s, i, "may", 5u8, true, true, true);
    push_entry(&mut v, s, i, "june", 6u8, true, true, true);
    push_entry(&mut v, s, i, "jun", 6u8, true, true, true);
    push_entry(&mut v, s, i, "july", 7u8, true, true, true);
    push_entry(&mut v, s, i, "jul", 7u8, true, true, true);
    push_entry(&mut v, s, i, "august", 8u8, true, true, true);
    push_entry(&mut v, s, i, "aug", 8u8, true, true, true);
    push_entry(&mut v, s, i, "september", 9u8, true, true, true);
    push_entry(&mut v, s, i, "sep", 9u8, true, true, true);
    push_entry(&mut v, s, i, "october", 10u8, true, true, true);
    push_entry(&mut v, s, i, "oct", 10u8, true, true, true);
    push_entry(&mut v, s, i, "november", 11u8, true, true, true);
    push_entry(&mut v, s, i, "nov", 11u8, true, true, true);
    push_entry(&mut v, s, i, "december", 12u8, true, true, true);
    push_entry(&mut v, s, i, "dec", 12u8, true, true, true);
    v
}

/// A spelled-out count from one to ten. (specification: the readings are tried in the
/// recognizer's order, and the first match decides).
#[verifier::opaque]
pub open spec fn spec_a_count(s: Seq<u8>, i: int) -> Option<(int, u32)> {
    if spec_word_at(s, i, "one") is Some {
        Some((spec_word_at(s, i, "one")->0, 1u32))
    } else if spec_word_at(s, i, "two") is Some {
        Some((spec_word_at(s, i, "two")->0, 2u32))
    } else if spec_word_at(s, i, "three") is Some {
        Some((spec_word_at(s, i, "three")->0, 3u32))
    } else if spec_word_at(s, i, "four") is Some {
        Some((spec_word_at(s, i, "four")->0, 4u32))
    } else if spec_word_at(s, i, "five") is Some {
        Some((spec_word_at(s, i, "five")->0, 5u32))
    } else if spec_word_at(s, i, "six") is Some {
        Some((spec_word_at(s, i, "six")->0, 6u32))
    } else if spec_word_at(s, i, "seven") is Some {
        Some((spec_word_at(s, i, "seven")->0, 7u32))
    } else if spec_word_at(s, i, "eight") is Some {
        Some((spec_word_at(s, i, "eight")->0, 8u32))
    } else if spec_word_at(s, i, "nine") is Some {
        Some((spec_word_at(s, i, "nine")->0, 9u32))
    } else if spec_word_at(s, i, "ten") is Some {
        Some((spec_word_at(s, i, "ten")->0, 10u32))
    } else {
        None
    }
}

/// A spelled-out count from one to ten.
fn a_count(s: &[u8], i: usize) -> (r: Option<(usize, u32)>)
    ensures
        r is Some <==> spec_a_count(s@, i as int) is Some,
        r is Some ==> ((r->0).0 as int, (r->0).1) == spec_a_count(s@, i as int)->0,
{
    proof {
        reveal(spec_a_count);
    }
    match word(s, i, "one") {
        Some(j) => {
            return Some((j, 1));
        },
        None => {},
    }
    match word(s, i, "two") {
        Some(j) => {
            return Some((j, 2));
        },
        None => {},
    }
    match word(s, i, "three") {
        Some(j) => {
            return Some((j, 3));
        },
        None => {},
    }
    match word(s, i, "four") {
        Some(j) => {
            return Some((j, 4));
        },
        None => {},
    }
    match word(s, i, "five") {
        Some(j) => {
            return Some((j, 5));
        },
        None => {},
    }
    match word(s, i, "six") {
        Some(j) => {
            return Some((j, 6));
        },
        None => {},
    }
    match word(s, i, "seven") {
        Some(j) => {
            return Some((j, 7));
        },
        None => {},
    }
    match word(s, i, "eight") {
        Some(j) => {
            return Some((j, 8));
        },
        None => {},
    }
    match word(s, i, "nine") {
        Some(j) => {
            return Some((j, 9));
        },
        None => {},
    }
    match word(s, i, "ten") {
        Some(j) => {
            return Some((j, 10));
        },
        None => {},
    }
    None
}

/// A day adverb. (specification: the readings are tried in the
/// recognizer's order, and the first match decides).
#[verifier::opaque]
pub open spec fn spec_adverb(s: Seq<u8>, i: int) -> Option<(int, AdverbDay)> {
    if spec_word_at(s, i, "now") is Some {
        Some((spec_word_at(s, i, "now")->0, AdverbDay::Now))
    } else if spec_word_at(s, i, "today") is Some {
        Some((spec_word_at(s, i, "today")->0, AdverbDay::Today))
    } else if spec_word_at(s, i, "tomorrow") is Some {
        Some((spec_word_at(s, i, "tomorrow")->0, AdverbDay::Tomorrow))
    } else if spec_word_at(s, i, "yesterday") is Some {
        Some((spec_word_at(s, i, "yesterday")->0, AdverbDay::Yesterday))
    } else {
        None
    }
}

/// A day adverb.
fn adverb(s: &[u8], i: usize) -> (r: Option<(usize, AdverbDay)>)
    ensures
        r is Some <==> spec_adverb(s@, i as int) is Some,
        r is Some ==> ((r->0).0 as int, (r->0).1) == spec_adverb(s@, i as int)->0,
{
    proof {
        reveal(spec_adverb);
    }
    match word(s, i, "now") {
        Some(j) => {
            return Some((j, AdverbDay::Now));
        },
        None => {},
    }
    match word(s, i, "today") {
        Some(j) => {
            return Some((j, AdverbDay::Today));
        },
        None => {},
    }
    match word(s, i, "tomorrow") {
        Some(j) => {
            return Some((j, AdverbDay::Tomorrow));
        },
        None => {},
    }
    match word(s, i, "yesterday") {
        Some(j) => {
            return Some((j, AdverbDay::Yesterday));
        },
        None => {},
    }
    None
}

/// A meridiem suffix; `true` means PM (specification: the readings are tried in the
/// recognizer's order, and the first match decides).
#[verifier::opaque]
pub open spec fn spec_am_pm(s: Seq<u8>, i: int) -> Option<(int, bool)> {
    if spec_suffix_word_at(s, i, "a.m.") is Some {
        Some((spec_suffix_word_at(s, i, "a.m.")->0, false))
    } else if spec_suffix_word_at(s, i, "A.M.") is Some {
        Some((spec_suffix_word_at(s, i, "A.M.")->0, false))
    } else if spec_suffix_word_at(s, i, "p.m.") is Some {
        Some((spec_suffix_word_at(s, i, "p.m.")->0, true))
    } else if spec_suffix_word_at(s, i, "P.M.") is Some {
        Some((spec_suffix_word_at(s, i, "P.M.")->0, true))
    } else if spec_suffix_word_at(s, i, "am") is Some {
        Some((spec_suffix_word_at(s, i, "am")->0, false))
    } else if spec_suffix_word_at(s, i, "AM") is Some {
        Some((spec_suffix_word_at(s, i, "AM")->0, false))
    } else if spec_suffix_word_at(s, i, "pm") is Some {
        Some((spec_suffix_word_at(s, i, "pm")->0, true))
    } else if spec_suffix_word_at(s, i, "PM") is Some {
        Some((spec_suffix_word_at(s, i, "PM")->0, true))
    } else {
        None
    }
}

/// A meridiem suffix, case-sensitive and allowed to follow a digit
/// directly; `true` means PM.
fn am_pm(s: &[u8], i: usize) -> (r: Option<(usize, bool)>)
    ensures
        r is Some <==> spec_am_pm(s@, i as int) is Some,
        r is Some ==> ((r->0).0 as int, (r->0).1) == spec_am_pm(s@, i as int)->0,
{
    proof {
        reveal(spec_am_pm);
    }
    match match_word(s, i, "a.m.", false, false, true) {
        Some(j) => {
            return Some((j, false));
        },
        None => {},
    }
    match match_word(s, i, "A.M.", false, false, true) {
        Some(j) => {
            return Some((j, false));
        },
        None => {},
    }
    match match_word(s, i, "p.m.", false, false, true) {
        Some(j) => {
            return Some((j, true));
        },
        None => {},
    }
    match match_word(s, i, "P.M.", false, false, true) {
        Some(j) => {
            return Some((j, true));
        },
        None => {},
    }
    match match_word(s, i, "am", false, false, true) {
        Some(j) => {
            return Some((j, false));
        },
        None => {},
    }
    match match_word(s, i, "AM", false, false, true) {
        Some(j) => {
            return Some((j, false));
        },
        None => {},
    }
    match match_word(s, i, "pm", false, false, true) {
        Some(j) => {
            return Some((j, true));
        },
        None => {},
    }
    match match_word(s, i, "PM", false, false, true) {
        Some(j) => {
            return Some((j, true));
        },
        None => {},
    }
    None
}

/// All readings of an era suffix at `i` (specification); `true` means
/// before the common era.
#[verifier::opaque]
pub open spec fn spec_year_suffix(s: Seq<u8>, i: int) -> Seq<(usize, bool)> {
    Seq::empty()
        .add(spec_entry(s, i, "c.e.", false, false, false, true))
        .add(spec_entry(s, i, "C.E.", false, false, false, true))
        .add(spec_entry(s, i, "a.d.", false, false, false, true))
        .add(spec_entry(s, i, "A.D.", false, false, false, true))
        .add(spec_entry(s, i, "ce", false, false, false, true))
        .add(spec_entry(s, i, "CE", false, false, false, true))
        .add(spec_entry(s, i, "ad", false, false, false, true))
        .add(spec_entry(s, i, "AD", false, false, false, true))
        .add(spec_entry(s, i, "b.c.e.", true, false, false, true))
        .add(spec_entry(s, i, "B.C.E.", true, false, false, true))
        .add(spec_entry(s, i, "bce", true, false, false, true))
        .add(spec_entry(s, i, "BCE", true, false, false, true))
        .add(spec_entry(s, i, "b.c.", true, false, false, true))
        .add(spec_entry(s, i, "B.C.", true, false, false, true))
        .add(spec_entry(s, i, "bc", true, false, false, true))
        .add(spec_entry(s, i, "BC", true, false, false, true))
}

/// An era suffix, case-sensitive and allowed to follow a digit directly;
/// `true` means before the common era.  All readings, longest first.
fn year_suffix(s: &[u8], i: usize) -> (v: Vec<(usize, bool)>)
    ensures
        v@ == spec_year_suffix(s@, i as int),
{
    proof {
        reveal(spec_year_suffix);
    }
    let mut v: Vec<(usize, bool)> = Vec::new();
    push_entry(&mut v, s, i, "c.e.", false, false, false, true);
    push_entry(&mut v, s, i, "C.E.", false, false, false, true);
    push_entry(&mut v, s, i, "a.d.", false, false, false, true);
    push_entry(&mut v, s, i, "A.D.", false, false, false, true);
    push_entry(&mut v, s, i, "ce", false, false, false, true);
    push_entry(&mut v, s, i, "CE", false, false, false, true);
    push_entry(&mut v, s, i, "ad", false, false, false, true);
    push_entry(&mut v, s, i, "AD", false, false, false, true);
    push_entry(&mut v, s, i, "b.c.e.", true, false, false, true);
    push_entry(&mut v, s, i, "B.C.E.", true, false, false, true);
    push_entry(&mut v, s, i, "bce", true, false, false, true);
    push_entry(&mut v, s, i, "BCE", true, false, false, true);
    push_entry(&mut v, s, i, "b.c.", true, false, false, true);
    push_entry(&mut v, s, i, "B.C.", true, false, false, true);
    push_entry(&mut v, s, i, "bc", true, false, false, true);
    push_entry(&mut v, s, i, "BC", true, false, false, true);
    v
}

/// All readings of an adjustment direction at `i` (specification),
/// the longest form first.
#[verifier::opaque]
pub open spec fn spec_direction(s: Seq<u8>, i: int) -> Seq<(usize, DirAst)> {
    Seq::empty()
        .add(spec_entry(s, i, "before and after", DirAst::BeforeAndAfter, true, true, true))
        .add(spec_entry(s, i, "before", DirAst::Before, true, true, true))
        .add(spec_entry(s, i, "after", DirAst::After, true, true, true))
        .add(spec_entry(s, i, "around", DirAst::Around, true, true, true))
}

/// An adjustment direction, longest reading first.
fn direction(s: &[u8], i: usize) -> (v: Vec<(usize, DirAst)>)
    ensures
        v@ == spec_direction(s@, i as int),
{
    proof {
        reveal(spec_direction);
    }
    let mut v: Vec<(usize, DirAst)> = Vec::new();
    push_entry(&mut v, s, i, "before and after", DirAst::BeforeAndAfter, true, true, true);
    push_entry(&mut v, s, i, "before", DirAst::Before, true, true, true);
    push_entry(&mut v, s, i, "after", DirAst::After, true, true, true);
    push_entry(&mut v, s, i, "around", DirAst::Around, true, true, true);
    v
}

/// Where one duration-unit word, with an optional plural "s" and a
/// word boundary after the whole form, is read at `i` (specification).
pub open spec fn spec_unit_word(s: Seq<u8>, i: int, w: &str) -> Option<int> {
    match crate::lexer::spec_match_word(s, i, w.spec_bytes(), true, true, false) {
        None => None,
        Some(j) => {
            let j2 = if 0 <= j < s.len() && (s[j] == 115 || s[j] == 83) {
                j + 1
            } else {
                j
            };
            if j2 < s.len() && crate::lexer::spec_word_byte(s[j2]) {
                None
            } else {
                Some(j2)
            }
        },
    }
}

/// A duration unit at `i` (specification: the units are tried in the
/// recognizer's order, and the first match decides).
#[verifier::opaque]
pub open spec fn spec_unit(s: Seq<u8>, i: int) -> Option<(int, UnitAst)> {
    if spec_unit_word(s, i, "week") is Some {
        Some((spec_unit_word(s, i, "week")->0, UnitAst::Week))
    } else if spec_unit_word(s, i, "day") is Some {
        Some((spec_unit_word(s, i, "day")->0, UnitAst::Day))
    } else if spec_unit_word(s, i, "hour") is Some {
        Some((spec_unit_word(s, i, "hour")->0, UnitAst::Hour))
    } else if spec_unit_word(s, i, "minute") is Some {
        Some((spec_unit_word(s, i, "minute")->0, UnitAst::Minute))
    } else if spec_unit_word(s, i, "second") is Some {
        Some((spec_unit_word(s, i, "second")->0, UnitAst::Second))
    } else {
        None
    }
}

/// A duration unit with an optional plural "s"; the word boundary is
/// checked after the whole form.
fn unit(s: &[u8], i: usize) -> (r: Option<(usize, UnitAst)>)
    ensures
        r is Some <==> spec_unit(s@, i as int) is Some,
        r is Some ==> ((r->0).0 as int, (r->0).1) == spec_unit(s@, i as int)->0,
{
    proof {
        reveal(spec_unit);
    }
    match unit_word(s, i, "week") {
        Some(j) => {
            return Some((j, UnitAst::Week));
        },
        None => {},
    }
    match unit_word(s, i, "day") {
        Some(j) => {
            return Some((j, UnitAst::Day));
        },
        None => {},
    }
    match unit_word(s, i, "hour") {
        Some(j) => {
            return Some((j, UnitAst::Hour));
        },
        None => {},
    }
    match unit_word(s, i, "minute") {
        Some(j) => {
            return Some((j, UnitAst::Minute));
        },
        None => {},
    }
    match unit_word(s, i, "second") {
        Some(j) => {
            return Some((j, UnitAst::Second));
        },
        None => {},
    }
    None
}

/// One duration-unit word with its optional plural "s".
fn unit_word(s: &[u8], i: usize, w: &str) -> (r: Option<usize>)
    ensures
        r is Some <==> spec_unit_word(s@, i as int, w) is Some,
        r is Some ==> r->0 as int == spec_unit_word(s@, i as int, w)->0,
{
    match match_word(s, i, w, true, true, false) {
        Some(j) => {
            let j2 = if j < s.len() && (s[j] == 115 || s[j] == 83) {
                j + 1
            } else {
                j
            };
            if j2 < s.len() && is_word_byte(s[j2]) {
                None
            } else {
                Some(j2)
            }
        },
        None => None,
    }
}

/// "from now" or "ago"; `true` means ago (specification: the readings are tried in the
/// recognizer's order, and the first match decides).
#[verifier::opaque]
pub open spec fn spec_from_now_or_ago(s: Seq<u8>, i: int) -> Option<(int, bool)> {
    if spec_word_at(s, i, "from now") is Some {
        Some((spec_word_at(s, i, "from now")->0, false))
    } else if spec_word_at(s, i, "ago") is Some {
        Some((spec_word_at(s, i, "ago")->0, true))
    } else {
        None
    }
}

/// "from now" or "ago"; `true` means ago.
fn from_now_or_ago(s: &[u8], i: usize) -> (r: Option<(usize, bool)>)
    ensures
        r is Some <==> spec_from_now_or_ago(s@, i as int) is Some,
        r is Some ==> ((r->0).0 as int, (r->0).1) == spec_from_now_or_ago(s@, i as int)->0,
{
    proof {
        reveal(spec_from_now_or_ago);
    }
    match word(s, i, "from now") {
        Some(j) => {
            return Some((j, false));
        },
        None => {},
    }
    match word(s, i, "ago") {
        Some(j) => {
            return Some((j, true));
        },
        None => {},
    }
    None
}

/// A period modifier; "the" counts as "this" (specification: the readings are tried in the
/// recognizer's order, and the first match decides).
#[verifier::opaque]
pub open spec fn spec_modifier(s: Seq<u8>, i: int) -> Option<(int, ModAst)> {
    if spec_word_at(s, i, "the") is Some {
        Some((spec_word_at(s, i, "the")->0, ModAst::This))
    } else if spec_word_at(s, i, "this") is Some {
        Some((spec_word_at(s, i, "this")->0, ModAst::This))
    } else if spec_word_at(s, i, "last") is Some {
        Some((spec_word_at(s, i, "last")->0, ModAst::Last))
    } else if spec_word_at(s, i, "next") is Some {
        Some((spec_word_at(s, i, "next")->0, ModAst::Next))
    } else {
        None
    }
}

/// A period modifier; "the" counts as "this".
fn modifier(s: &[u8], i: usize) -> (r: Option<(usize, ModAst)>)
    ensures
        r is Some <==> spec_modifier(s@, i as int) is Some,
        r is Some ==> ((r->0).0 as int, (r->0).1) == spec_modifier(s@, i as int)->0,
{
    proof {
        reveal(spec_modifier);
    }
    match word(s, i, "the") {
        Some(j) => {
            return Some((j, ModAst::This));
        },
        None => {},
    }
    match word(s, i, "this") {
        Some(j) => {
            return Some((j, ModAst::This));
        },
        None => {},
    }
    match word(s, i, "last") {
        Some(j) => {
            return Some((j, ModAst::Last));
        },
        None => {},
    }
    match word(s, i, "next") {
        Some(j) => {
            return Some((j, ModAst::Next));
        },
        None => {},
    }
    None
}

/// "noon" or "midnight" (specification: the readings are tried in the
/// recognizer's order, and the first match decides).
#[verifier::opaque]
pub open spec fn spec_named_time(s: Seq<u8>, i: int) -> Option<(int, TimeAst)> {
    if spec_word_at(s, i, "noon") is Some {
        Some((spec_word_at(s, i, "noon")->0, TimeAst::Named { noon: true }))
    } else if spec_word_at(s, i, "midnight") is Some {
        Some((spec_word_at(s, i, "midnight")->0, TimeAst::Named { noon: false }))
    } else {
        None
    }
}

/// "noon" or "midnight".
fn named_time(s: &[u8], i: usize) -> (r: Option<(usize, TimeAst)>)
    ensures
        r is Some <==> spec_named_time(s@, i as int) is Some,
        r is Some ==> ((r->0).0 as int, (r->0).1) == spec_named_time(s@, i as int)->0,
{
    proof {
        reveal(spec_named_time);
    }
    match word(s, i, "noon") {
        Some(j) => {
            return Some((j, TimeAst::Named { noon: true }));
        },
        None => {},
    }
    match word(s, i, "midnight") {
        Some(j) => {
            return Some((j, TimeAst::Named { noon: false }));
        },
        None => {},
    }
    None
}

/// A Roman day name (specification: the readings are tried in the
/// recognizer's order, and the first match decides).
#[verifier::opaque]
pub open spec fn spec_roman(s: Seq<u8>, i: int) -> Option<(int, RomanDay)> {
    if spec_word_at(s, i, "nones") is Some {
        Some((spec_word_at(s, i, "nones")->0, RomanDay::Nones))
    } else if spec_word_at(s, i, "ides") is Some {
        Some((spec_word_at(s, i, "ides")->0, RomanDay::Ides))
    } else if spec_word_at(s, i, "kalends") is Some {
        Some((spec_word_at(s, i, "kalends")->0, RomanDay::Kalends))
    } else {
        None
    }
}

/// A Roman day name.
fn roman(s: &[u8], i: usize) -> (r: Option<(usize, RomanDay)>)
    ensures
        r is Some <==> spec_roman(s@, i as int) is Some,
        r is Some ==> ((r->0).0 as int, (r->0).1) == spec_roman(s@, i as int)->0,
{
    proof {
        reveal(spec_roman);
    }
    match word(s, i, "nones") {
        Some(j) => {
            return Some((j, RomanDay::Nones));
        },
        None => {},
    }
    match word(s, i, "ides") {
        Some(j) => {
            return Some((j, RomanDay::Ides));
        },
        None => {},
    }
    match word(s, i, "kalends") {
        Some(j) => {
            return Some((j, RomanDay::Kalends));
        },
        None => {},
    }
    None
}

/// Where one of the universal-vocabulary phrases is read at `i`, the
/// longer forms first, as the recognizer tries them.
#[verifier::opaque]
pub open spec fn spec_universal_end(s: Seq<u8>, i: int) -> Option<int> {
    if spec_word_at(s, i, "from the beginning to the end") is Some {
        spec_word_at(s, i, "from the beginning to the end")
    } else if spec_word_at(s, i, "from beginning to end") is Some {
        spec_word_at(s, i, "from beginning to end")
    } else if spec_word_at(s, i, "all time") is Some {
        spec_word_at(s, i, "all time")
    } else if spec_word_at(s, i, "always") is Some {
        spec_word_at(s, i, "always")
    } else if spec_word_at(s, i, "forever") is Some {
        spec_word_at(s, i, "forever")
    } else if spec_word_at(s, i, "ever") is Some {
        spec_word_at(s, i, "ever")
    } else {
        None
    }
}

/// Whether the whole of `s` reads as a universal phrase: optional
/// whitespace, one universal-vocabulary entry, optional whitespace.
pub open spec fn spec_universal_reading(s: Seq<u8>) -> bool {
    match spec_universal_end(s, spec_ws_end(s, 0)) {
        Some(j) => spec_ws_end(s, j) >= s.len(),
        None => false,
    }
}

/// A universal phrase, meaning all of time.
fn universal(s: &[u8], i: usize) -> (r: Option<usize>)
    ensures
        r is Some <==> spec_universal_end(s@, i as int) is Some,
        r is Some ==> r->0 as int == spec_universal_end(s@, i as int)->0,
{
    proof {
        reveal(spec_universal_end);
    }
    match word(s, i, "from the beginning to the end") {
        Some(j) => {
            return Some(j);
        },
        None => {},
    }
    match word(s, i, "from beginning to end") {
        Some(j) => {
            return Some(j);
        },
        None => {},
    }
    match word(s, i, "all time") {
        Some(j) => {
            return Some(j);
        },
        None => {},
    }
    match word(s, i, "always") {
        Some(j) => {
            return Some(j);
        },
        None => {},
    }
    match word(s, i, "forever") {
        Some(j) => {
            return Some(j);
        },
        None => {},
    }
    match word(s, i, "ever") {
        Some(j) => {
            return Some(j);
        },
        None => {},
    }
    None
}

/// The reading of one phrase entry as a one-element sequence of end
/// positions, or the empty sequence when it does not match.
pub open spec fn spec_phrase_entry(s: Seq<u8>, i: int, w: &str) -> Seq<usize> {
    match spec_word_at(s, i, w) {
        Some(j) => seq![j as usize],
        None => Seq::empty(),
    }
}

/// Appends the reading of one phrase entry, if it matches.
fn push_phrase_entry(v: &mut Vec<usize>, s: &[u8], i: usize, w: &str)
    ensures
        final(v)@ == old(v)@ + spec_phrase_entry(s@, i as int, w),
{
    match word(s, i, w) {
        Some(j) => {
            v.push(j);
            proof {
                assert(v@ =~= old(v)@ + spec_phrase_entry(s@, i as int, w));
            }
        },
        None => {
            proof {
                assert(v@ =~= old(v)@ + spec_phrase_entry(s@, i as int, w));
            }
        },
    }
}

/// All readings of a phrase naming the first expressible moment at `i` (specification), longest first.
#[verifier::opaque]
pub open spec fn spec_first_time(s: Seq<u8>, i: int) -> Seq<usize> {
    Seq::empty()
        .add(spec_phrase_entry(s, i, "the birth of the universe"))
        .add(spec_phrase_entry(s, i, "the beginning of time"))
        .add(spec_phrase_entry(s, i, "the first instant"))
        .add(spec_phrase_entry(s, i, "the first moment"))
        .add(spec_phrase_entry(s, i, "the dawn of time"))
        .add(spec_phrase_entry(s, i, "the very start"))
        .add(spec_phrase_entry(s, i, "the beginning"))
        .add(spec_phrase_entry(s, i, "the big bang"))
        .add(spec_phrase_entry(s, i, "the start"))
}

/// All readings of a phrase naming the first expressible moment at `i`, longest first.
fn first_time(s: &[u8], i: usize) -> (v: Vec<usize>)
    ensures
        v@ == spec_first_time(s@, i as int),
{
    proof {
        reveal(spec_first_time);
    }
    let mut v: Vec<usize> = Vec::new();
    push_phrase_entry(&mut v, s, i, "the birth of the universe");
    push_phrase_entry(&mut v, s, i, "the beginning of time");
    push_phrase_entry(&mut v, s, i, "the first instant");
    push_phrase_entry(&mut v, s, i, "the first moment");
    push_phrase_entry(&mut v, s, i, "the dawn of time");
    push_phrase_entry(&mut v, s, i, "the very start");
    push_phrase_entry(&mut v, s, i, "the beginning");
    push_phrase_entry(&mut v, s, i, "the big bang");
    push_phrase_entry(&mut v, s, i, "the start");
    v
}

/// All readings of a phrase naming the last expressible moment at `i` (specification), longest first.
#[verifier::opaque]
pub open spec fn spec_last_time(s: Seq<u8>, i: int) -> Seq<usize> {
    Seq::empty()
        .add(spec_phrase_entry(s, i, "the last syllable of recorded time"))
        .add(spec_phrase_entry(s, i, "the heat death of the universe"))
        .add(spec_phrase_entry(s, i, "the crack of doom"))
        .add(spec_phrase_entry(s, i, "the last moment"))
        .add(spec_phrase_entry(s, i, "the end of time"))
        .add(spec_phrase_entry(s, i, "the last hurrah"))
        .add(spec_phrase_entry(s, i, "the big crunch"))
        .add(spec_phrase_entry(s, i, "the very end"))
        .add(spec_phrase_entry(s, i, "armageddon"))
        .add(spec_phrase_entry(s, i, "ever after"))
        .add(spec_phrase_entry(s, i, "perdition"))
        .add(spec_phrase_entry(s, i, "doomsday"))
        .add(spec_phrase_entry(s, i, "eternity"))
        .add(spec_phrase_entry(s, i, "infinity"))
        .add(spec_phrase_entry(s, i, "ragnarok"))
        .add(spec_phrase_entry(s, i, "the end"))
        .add(spec_phrase_entry(s, i, "death"))
        .add(spec_phrase_entry(s, i, "doom"))
}

/// All readings of a phrase naming the last expressible moment at `i`, longest first.
fn last_time(s: &[u8], i: usize) -> (v: Vec<usize>)
    ensures
        v@ == spec_last_time(s@, i as int),
{
    proof {
        reveal(spec_last_time);
    }
    let mut v: Vec<usize> = Vec::new();
    push_phrase_entry(&mut v, s, i, "the last syllable of recorded time");
    push_phrase_entry(&mut v, s, i, "the heat death of the universe");
    push_phrase_entry(&mut v, s, i, "the crack of doom");
    push_phrase_entry(&mut v, s, i, "the last moment");
    push_phrase_entry(&mut v, s, i, "the end of time");
    push_phrase_entry(&mut v, s, i, "the last hurrah");
    push_phrase_entry(&mut v, s, i, "the big crunch");
    push_phrase_entry(&mut v, s, i, "the very end");
    push_phrase_entry(&mut v, s, i, "armageddon");
    push_phrase_entry(&mut v, s, i, "ever after");
    push_phrase_entry(&mut v, s, i, "perdition");
    push_phrase_entry(&mut v, s, i, "doomsday");
    push_phrase_entry(&mut v, s, i, "eternity");
    push_phrase_entry(&mut v, s, i, "infinity");
    push_phrase_entry(&mut v, s, i, "ragnarok");
    push_phrase_entry(&mut v, s, i, "the end");
    push_phrase_entry(&mut v, s, i, "death");
    push_phrase_entry(&mut v, s, i, "doom");
    v
}

/// A spelled-out ordinal day of the month (specification: the readings are tried in the
/// recognizer's order, and the first match decides).
#[verifier::opaque]
pub open spec fn spec_a_ordinal(s: Seq<u8>, i: int) -> Option<(int, u8)> {
    if spec_word_at(s, i, "twenty-first") is Some {
        Some((spec_word_at(s, i, "twenty-first")->0, 21u8))
    } else if spec_word_at(s, i, "twenty-second") is Some {
        Some((spec_word_at(s, i, "twenty-second")->0, 22u8))
    } else if spec_word_at(s, i, "twenty-third") is Some {
        Some((spec_word_at(s, i, "twenty-third")->0, 23u8))
    } else if spec_word_at(s, i, "twenty-fourth") is Some {
        Some((spec_word_at(s, i, "twenty-fourth")->0, 24u8))
    } else if spec_word_at(s, i, "twenty-fifth") is Some {
        Some((spec_word_at(s, i, "twenty-fifth")->0, 25u8))
    } else if spec_word_at(s, i, "twenty-sixth") is Some {
        Some((spec_word_at(s, i, "twenty-sixth")->0, 26u8))
    } else if spec_word_at(s, i, "twenty-seventh") is Some {
        Some((spec_word_at(s, i, "twenty-seventh")->0, 27u8))
    } else if spec_word_at(s, i, "twenty-eighth") is Some {
        Some((spec_word_at(s, i, "twenty-eighth")->0, 28u8))
    } else if spec_word_at(s, i, "twenty-ninth") is Some {
        Some((spec_word_at(s, i, "twenty-ninth")->0, 29u8))
    } else if spec_word_at(s, i, "thirty-first") is Some {
        Some((spec_word_at(s, i, "thirty-first")->0, 31u8))
    } else if spec_word_at(s, i, "thirtieth") is Some {
        Some((spec_word_at(s, i, "thirtieth")->0, 30u8))
    } else if spec_word_at(s, i, "twentieth") is Some {
        Some((spec_word_at(s, i, "twentieth")->0, 20u8))
    } else if spec_word_at(s, i, "eleventh") is Some {
        Some((spec_word_at(s, i, "eleventh")->0, 11u8))
    } else if spec_word_at(s, i, "twelfth") is Some {
        Some((spec_word_at(s, i, "twelfth")->0, 12u8))
    } else if spec_word_at(s, i, "thirteenth") is Some {
        Some((spec_word_at(s, i, "thirteenth")->0, 13u8))
    } else if spec_word_at(s, i, "fourteenth") is Some {
        Some((spec_word_at(s, i, "fourteenth")->0, 14u8))
    } else if spec_word_at(s, i, "fifteenth") is Some {
        Some((spec_word_at(s, i, "fifteenth")->0, 15u8))
    } else if spec_word_at(s, i, "sixteenth") is Some {
        Some((spec_word_at(s, i, "sixteenth")->0, 16u8))
    } else if spec_word_at(s, i, "seventeenth") is Some {
        Some((spec_word_at(s, i, "seventeenth")->0, 17u8))
    } else if spec_word_at(s, i, "eighteenth") is Some {
        Some((spec_word_at(s, i, "eighteenth")->0, 18u8))
    } else if spec_word_at(s, i, "nineteenth") is Some {
        Some((spec_word_at(s, i, "nineteenth")->0, 19u8))
    } else if spec_word_at(s, i, "first") is Some {
        Some((spec_word_at(s, i, "first")->0, 1u8))
    } else if spec_word_at(s, i, "second") is Some {
        Some((spec_word_at(s, i, "second")->0, 2u8))
    } else if spec_word_at(s, i, "third") is Some {
        Some((spec_word_at(s, i, "third")->0, 3u8))
    } else if spec_word_at(s, i, "fourth") is Some {
        Some((spec_word_at(s, i, "fourth")->0, 4u8))
    } else if spec_word_at(s, i, "fifth") is Some {
        Some((spec_word_at(s, i, "fifth")->0, 5u8))
    } else if spec_word_at(s, i, "sixth") is Some {
        Some((spec_word_at(s, i, "sixth")->0, 6u8))
    } else if spec_word_at(s, i, "seventh") is Some {
        Some((spec_word_at(s, i, "seventh")->0, 7u8))
    } else if spec_word_at(s, i, "eighth") is Some {
        Some((spec_word_at(s, i, "eighth")->0, 8u8))
    } else if spec_word_at(s, i, "ninth") is Some {
        Some((spec_word_at(s, i, "ninth")->0, 9u8))
    } else if spec_word_at(s, i, "tenth") is Some {
        Some((spec_word_at(s, i, "tenth")->0, 10u8))
    } else {
        None
    }
}

/// A spelled-out ordinal day of the month.
fn a_ordinal(s: &[u8], i: usize) -> (r: Option<(usize, u8)>)
    ensures
        r is Some <==> spec_a_ordinal(s@, i as int) is Some,
        r is Some ==> ((r->0).0 as int, (r->0).1) == spec_a_ordinal(s@, i as int)->0,
{
    proof {
        reveal(spec_a_ordinal);
    }
    match word(s, i, "twenty-first") {
        Some(j) => {
            return Some((j, 21u8));
        },
        None => {},
    }
    match word(s, i, "twenty-second") {
        Some(j) => {
            return Some((j, 22u8));
        },
        None => {},
    }
    match word(s, i, "twenty-third") {
        Some(j) => {
            return Some((j, 23u8));
        },
        None => {},
    }
    match word(s, i, "twenty-fourth") {
        Some(j) => {
            return Some((j, 24u8));
        },
        None => {},
    }
    match word(s, i, "twenty-fifth") {
        Some(j) => {
            return Some((j, 25u8));
        },
        None => {},
    }
    match word(s, i, "twenty-sixth") {
        Some(j) => {
            return Some((j, 26u8));
        },
        None => {},
    }
    match word(s, i, "twenty-seventh") {
        Some(j) => {
            return Some((j, 27u8));
        },
        None => {},
    }
    match word(s, i, "twenty-eighth") {
        Some(j) => {
            return Some((j, 28u8));
        },
        None => {},
    }
    match word(s, i, "twenty-ninth") {
        Some(j) => {
            return Some((j, 29u8));
        },
        None => {},
    }
    match word(s, i, "thirty-first") {
        Some(j) => {
            return Some((j, 31u8));
        },
        None => {},
    }
    match word(s, i, "thirtieth") {
        Some(j) => {
            return Some((j, 30u8));
        },
        None => {},
    }
    match word(s, i, "twentieth") {
        Some(j) => {
            return Some((j, 20u8));
        },
        None => {},
    }
    match word(s, i, "eleventh") {
        Some(j) => {
            return Some((j, 11u8));
        },
        None => {},
    }
    match word(s, i, "twelfth") {
        Some(j) => {
            return Some((j, 12u8));
        },
        None => {},
    }
    match word(s, i, "thirteenth") {
        Some(j) => {
            return Some((j, 13u8));
        },
        None => {},
    }
    match word(s, i, "fourteenth") {
        Some(j) => {
            return Some((j, 14u8));
        },
        None => {},
    }
    match word(s, i, "fifteenth") {
        Some(j) => {
            return Some((j, 15u8));
        },
        None => {},
    }
    match word(s, i, "sixteenth") {
        Some(j) => {
            return Some((j, 16u8));
        },
        None => {},
    }
    match word(s, i, "seventeenth") {
        Some(j) => {
            return Some((j, 17u8));
        },
        None => {},
    }
    match word(s, i, "eighteenth") {
        Some(j) => {
            return Some((j, 18u8));
        },
        None => {},
    }
    match word(s, i, "nineteenth") {
        Some(j) => {
            return Some((j, 19u8));
        },
        None => {},
    }
    match word(s, i, "first") {
        Some(j) => {
            return Some((j, 1u8));
        },
        None => {},
    }
    match word(s, i, "second") {
        Some(j) => {
            return Some((j, 2u8));
        },
        None => {},
    }
    match word(s, i, "third") {
        Some(j) => {
            return Some((j, 3u8));
        },
        None => {},
    }
    match word(s, i, "fourth") {
        Some(j) => {
            return Some((j, 4u8));
        },
        None => {},
    }
    match word(s, i, "fifth") {
        Some(j) => {
            return Some((j, 5u8));
        },
        None => {},
    }
    match word(s, i, "sixth") {
        Some(j) => {
            return Some((j, 6u8));
        },
        None => {},
    }
    match word(s, i, "seventh") {
        Some(j) => {
            return Some((j, 7u8));
        },
        None => {},
    }
    match word(s, i, "eighth") {
        Some(j) => {
            return Some((j, 8u8));
        },
        None => {},
    }
    match word(s, i, "ninth") {
        Some(j) => {
            return Some((j, 9u8));
        },
        None => {},
    }
    match word(s, i, "tenth") {
        Some(j) => {
            return Some((j, 10u8));
        },
        None => {},
    }
    None
}

/// Where a numeric ordinal such as "1st" or "23rd" is read at `i`
/// (specification): one or two digits naming a day of the month,
/// followed by the correct suffix for that number, word-bounded.
#[verifier::opaque]
pub open spec fn spec_n_ordinal(s: Seq<u8>, i: int) -> Option<(int, u8)> {
    if i > 0 && i <= s.len() && crate::lexer::spec_word_byte(s[i - 1]) {
        None
    } else {
        let e = crate::lexer::spec_digit_run_end(s, i);
        if e == i || e - i > 2 {
            None
        } else {
            match crate::lexer::spec_digits_value(s, i, e) {
                None => None,
                Some(v) => if v < 1 || v > 31 {
                    None
                } else if !(e + 1 < s.len()) {
                    None
                } else {
                    let want: (u8, u8) = if v % 10 == 1 && v != 11 {
                        (115, 116)  // st
                    } else if v % 10 == 2 && v != 12 {
                        (110, 100)  // nd
                    } else if v % 10 == 3 && v != 13 {
                        (114, 100)  // rd
                    } else {
                        (116, 104)  // th
                    };
                    if crate::lexer::spec_fold(s[e]) != want.0 || crate::lexer::spec_fold(
                        s[e + 1],
                    ) != want.1 {
                        None
                    } else if e + 2 < s.len() && crate::lexer::spec_word_byte(s[e + 2]) {
                        None
                    } else {
                        Some((e + 2, v as u8))
                    }
                },
            }
        }
    }
}

/// A numeric ordinal such as "1st" or "23rd", with the correct suffix.
fn n_ordinal(s: &[u8], i: usize) -> (r: Option<(usize, u8)>)
    ensures
        r is Some <==> spec_n_ordinal(s@, i as int) is Some,
        r is Some ==> ((r->0).0 as int, (r->0).1) == spec_n_ordinal(s@, i as int)->0,
{
    proof {
        reveal(spec_n_ordinal);
    }
    if i > 0 && i <= s.len() && is_word_byte(s[i - 1]) {
        return None;
    }
    let e = digit_run_end(s, i);
    if e == i || e - i > 2 {
        return None;
    }
    let v = match digits_value(s, i, e) {
        Some(v) => v,
        None => {
            return None;
        },
    };
    if v < 1 || v > 31 {
        return None;
    }
    if !(e < s.len() && e + 1 < s.len()) {
        return None;
    }
    let suf: (u8, u8) = (crate::lexer::to_lower(s[e]), crate::lexer::to_lower(s[e + 1]));
    let want: (u8, u8) = if v % 10 == 1 && v != 11 {
        (115, 116)  // st
    } else if v % 10 == 2 && v != 12 {
        (110, 100)  // nd
    } else if v % 10 == 3 && v != 13 {
        (114, 100)  // rd
    } else {
        (116, 104)  // th
    };
    if suf.0 != want.0 || suf.1 != want.1 {
        return None;
    }
    let j = e + 2;
    if j < s.len() && is_word_byte(s[j]) {
        return None;
    }
    Some((j, v as u8))
}

/// Where a numeric day of the month, one or two digits up to thirty-one,
/// word-bounded, is read at `i` (specification).
#[verifier::opaque]
pub open spec fn spec_n_day(s: Seq<u8>, i: int) -> Option<(int, u8)> {
    if i > 0 && i <= s.len() && crate::lexer::spec_word_byte(s[i - 1]) {
        None
    } else {
        let e = crate::lexer::spec_digit_run_end(s, i);
        if e == i || e - i > 2 {
            None
        } else if e < s.len() && crate::lexer::spec_word_byte(s[e]) {
            None
        } else {
            match crate::lexer::spec_digits_value(s, i, e) {
                None => None,
                Some(v) => if v < 1 || v > 31 {
                    None
                } else {
                    Some((e, v as u8))
                },
            }
        }
    }
}

/// A numeric day of the month, one or two digits, word-bounded.
fn n_day(s: &[u8], i: usize) -> (r: Option<(usize, u8)>)
    ensures
        r is Some <==> spec_n_day(s@, i as int) is Some,
        r is Some ==> ((r->0).0 as int, (r->0).1) == spec_n_day(s@, i as int)->0,
{
    proof {
        reveal(spec_n_day);
    }
    if i > 0 && i <= s.len() && is_word_byte(s[i - 1]) {
        return None;
    }
    let e = digit_run_end(s, i);
    if e == i || e - i > 2 {
        return None;
    }
    if e < s.len() && is_word_byte(s[e]) {
        return None;
    }
    let v = match digits_value(s, i, e) {
        Some(v) => v,
        None => {
            return None;
        },
    };
    if v < 1 || v > 31 {
        return None;
    }
    Some((e, v as u8))
}

/// Where a numeric month, one or two digits up to eleven, word-bounded, is read at `i` (specification).
#[verifier::opaque]
pub open spec fn spec_n_month(s: Seq<u8>, i: int) -> Option<(int, u8)> {
    if i > 0 && i <= s.len() && crate::lexer::spec_word_byte(s[i - 1]) {
        None
    } else {
        let e = crate::lexer::spec_digit_run_end(s, i);
        if e == i || e - i > 2 {
            None
        } else if e < s.len() && crate::lexer::spec_word_byte(s[e]) {
            None
        } else {
            match crate::lexer::spec_digits_value(s, i, e) {
                None => None,
                Some(v) => if v < 1 || v > 11 {
                    None
                } else {
                    Some((e, v as u8))
                },
            }
        }
    }
}

/// A numeric month, one or two digits up to eleven, word-bounded.
fn n_month(s: &[u8], i: usize) -> (r: Option<(usize, u8)>)
    ensures
        r is Some <==> spec_n_month(s@, i as int) is Some,
        r is Some ==> ((r->0).0 as int, (r->0).1) == spec_n_month(s@, i as int)->0,
{
    proof {
        reveal(spec_n_month);
    }
    if i > 0 && i <= s.len() && is_word_byte(s[i - 1]) {
        return None;
    }
    let e = digit_run_end(s, i);
    if e == i || e - i > 2 {
        return None;
    }
    if e < s.len() && is_word_byte(s[e]) {
        return None;
    }
    let v = match digits_value(s, i, e) {
        Some(v) => v,
        None => {
            return None;
        },
    };
    if v < 1 || v > 11 {
        return None;
    }
    Some((e, v as u8))
}

/// Where a two-digit year, optionally preceded by an apostrophe, is
/// read at `i` (specification).
#[verifier::opaque]
pub open spec fn spec_short_year(s: Seq<u8>, i: int) -> Option<(int, u8)> {
    let start = if 0 <= i < s.len() && s[i] == 39 {
        i + 1
    } else {
        i
    };
    if start == i && i > 0 && i <= s.len() && crate::lexer::spec_word_byte(s[i - 1]) {
        None
    } else {
        let e = crate::lexer::spec_digit_run_end(s, start);
        if e - start != 2 {
            None
        } else if e < s.len() && crate::lexer::spec_word_byte(s[e]) {
            None
        } else {
            match crate::lexer::spec_digits_value(s, start, e) {
                None => None,
                Some(v) => Some((e, v as u8)),
            }
        }
    }
}

/// A two-digit year, optionally preceded by an apostrophe.
fn short_year(s: &[u8], i: usize) -> (r: Option<(usize, u8)>)
    ensures
        r is Some <==> spec_short_year(s@, i as int) is Some,
        r is Some ==> ((r->0).0 as int, (r->0).1) == spec_short_year(s@, i as int)->0,
{
    proof {
        reveal(spec_short_year);
    }
    let start = if i < s.len() && s[i] == 39 {
        i + 1
    } else {
        if i > 0 && i <= s.len() && is_word_byte(s[i - 1]) {
            return None;
        }
        i
    };
    let e = digit_run_end(s, start);
    if e - start != 2 {
        return None;
    }
    if e < s.len() && is_word_byte(s[e]) {
        return None;
    }
    let v = match digits_value(s, start, e) {
        Some(v) => v,
        None => {
            return None;
        },
    };
    Some((e, v as u8))
}

/// Where a plain year numeral of up to five digits without a leading
/// zero, or zero itself, word-bounded, is read at `i` (specification).
#[verifier::opaque]
pub open spec fn spec_n_year(s: Seq<u8>, i: int) -> Option<(int, u32)> {
    if i > 0 && i <= s.len() && crate::lexer::spec_word_byte(s[i - 1]) {
        None
    } else {
        let e = crate::lexer::spec_digit_run_end(s, i);
        if e == i || e - i > 5 {
            None
        } else if crate::lexer::spec_at(s, i) == 48 && e - i > 1 {
            None
        } else if e < s.len() && crate::lexer::spec_word_byte(s[e]) {
            None
        } else {
            match crate::lexer::spec_digits_value(s, i, e) {
                None => None,
                Some(v) => Some((e, v as u32)),
            }
        }
    }
}

/// A plain year numeral of up to five digits without a leading zero, or
/// zero itself, word-bounded.
fn n_year(s: &[u8], i: usize) -> (r: Option<(usize, u32)>)
    ensures
        r is Some <==> spec_n_year(s@, i as int) is Some,
        r is Some ==> ((r->0).0 as int, (r->0).1) == spec_n_year(s@, i as int)->0,
{
    proof {
        reveal(spec_n_year);
    }
    if i > 0 && i <= s.len() && is_word_byte(s[i - 1]) {
        return None;
    }
    let e = digit_run_end(s, i);
    if e == i || e - i > 5 {
        return None;
    }
    if at(s, i) == 48 && e - i > 1 {
        return None;
    }
    if e < s.len() && is_word_byte(s[e]) {
        return None;
    }
    match digits_value(s, i, e) {
        Some(v) => Some((e, v)),
        None => None,
    }
}

/// The era-suffix year readings that end at `j` or earlier, down to a
/// single digit: one entry for every length whose digits make a value
/// (specification).
pub open spec fn spec_suffix_items(s: Seq<u8>, i: int, j: int) -> Seq<(usize, u32)>
    decreases j - i,
{
    if j <= i {
        Seq::empty()
    } else {
        (match crate::lexer::spec_digits_value(s, i, j) {
            Some(v) => seq![(j as usize, v as u32)],
            None => Seq::empty(),
        }) + spec_suffix_items(s, i, j - 1)
    }
}

/// All readings of a year numeral for an era suffix at `i`: up to five
/// digits, no leading zero, word-bounded on the left only, longest
/// first (specification).
#[verifier::opaque]
pub open spec fn spec_suffix_year(s: Seq<u8>, i: int) -> Seq<(usize, u32)> {
    if i > 0 && i <= s.len() && crate::lexer::spec_word_byte(s[i - 1]) {
        Seq::empty()
    } else if !(0 <= i < s.len()) || s[i] == 48 || !crate::lexer::spec_digit_byte(s[i]) {
        Seq::empty()
    } else {
        let e0 = crate::lexer::spec_digit_run_end(s, i);
        let e = if e0 - i > 5 {
            i + 5
        } else {
            e0
        };
        spec_suffix_items(s, i, e)
    }
}

/// A year numeral for an era suffix: up to five digits, no leading
/// zero, word-bounded on the left only.  All readings, longest first.
fn suffix_year(s: &[u8], i: usize) -> (v: Vec<(usize, u32)>)
    ensures
        v@ == spec_suffix_year(s@, i as int),
{
    proof {
        reveal(spec_suffix_year);
    }
    let mut v: Vec<(usize, u32)> = Vec::new();
    if i > 0 && i <= s.len() && is_word_byte(s[i - 1]) {
        proof {
            assert(v@ =~= spec_suffix_year(s@, i as int));
        }
        return v;
    }
    if !(i < s.len()) || s[i] == 48 || !is_digit_byte(s[i]) {
        proof {
            assert(v@ =~= spec_suffix_year(s@, i as int));
        }
        return v;
    }
    let e0 = digit_run_end(s, i);
    let e = if e0 - i > 5 {
        i + 5
    } else {
        e0
    };
    let mut j = e;
    while j > i
        invariant
            i <= j <= e,
            v@ + spec_suffix_items(s@, i as int, j as int) == spec_suffix_items(
                s@,
                i as int,
                e as int,
            ),
        decreases j,
    {
        let ghost v0 = v@;
        match digits_value(s, i, j) {
            Some(val) => {
                v.push((j, val));
            },
            None => {},
        }
        proof {
            assert(v@ + spec_suffix_items(s@, i as int, j as int - 1) =~= v0
                + spec_suffix_items(s@, i as int, j as int));
        }
        j = j - 1;
    }
    proof {
        assert(v@ =~= v@ + spec_suffix_items(s@, i as int, j as int));
        assert(v@ =~= spec_suffix_year(s@, i as int));
    }
    v
}

/// All readings of a twelve-hour clock hour at `i` (specification):
/// the two-digit reading from 10 to 12 first, then the one-digit
/// reading, with no word boundary required after either.
#[verifier::opaque]
pub open spec fn spec_h12(s: Seq<u8>, i: int) -> Seq<(usize, u8)> {
    if (i > 0 && i <= s.len() && crate::lexer::spec_word_byte(s[i - 1])) || !(0 <= i < s.len()
        && crate::lexer::spec_digit_byte(s[i])) {
        Seq::empty()
    } else {
        let two: Seq<(usize, u8)> = if i + 1 < s.len() && crate::lexer::spec_digit_byte(
            s[i + 1],
        ) {
            match crate::lexer::spec_digits_value(s, i, i + 2) {
                Some(v) => if 10 <= v <= 12 {
                    seq![((i + 2) as usize, v as u8)]
                } else {
                    Seq::empty()
                },
                None => Seq::empty(),
            }
        } else {
            Seq::empty()
        };
        let one: Seq<(usize, u8)> = match crate::lexer::spec_digits_value(s, i, i + 1) {
            Some(v) => if 1 <= v <= 9 {
                seq![((i + 1) as usize, v as u8)]
            } else {
                Seq::empty()
            },
            None => Seq::empty(),
        };
        two + one
    }
}

/// A twelve-hour clock hour, one or two digits from 1 to 12, with no
/// word boundary required after it.  All readings, longest first.
fn h12(s: &[u8], i: usize) -> (v: Vec<(usize, u8)>)
    ensures
        v@ == spec_h12(s@, i as int),
{
    proof {
        reveal(spec_h12);
    }
    let mut v: Vec<(usize, u8)> = Vec::new();
    if i > 0 && i <= s.len() && is_word_byte(s[i - 1]) {
        proof {
            assert(v@ =~= spec_h12(s@, i as int));
        }
        return v;
    }
    if !(i < s.len() && is_digit_byte(s[i])) {
        proof {
            assert(v@ =~= spec_h12(s@, i as int));
        }
        return v;
    }
    if i + 1 < s.len() && is_digit_byte(s[i + 1]) {
        match digits_value(s, i, i + 2) {
            Some(val) => {
                if 10 <= val && val <= 12 {
                    v.push((i + 2, val as u8));
                }
            },
            None => {},
        }
    }
    match digits_value(s, i, i + 1) {
        Some(val) => {
            if 1 <= val && val <= 9 {
                v.push((i + 1, val as u8));
            }
        },
        None => {},
    }
    proof {
        assert(v@ =~= spec_h12(s@, i as int));
    }
    v
}

/// Where a 24-hour clock hour from 1 to 24, plain or zero-padded and
/// word-bounded, is read at `i` (specification).
#[verifier::opaque]
pub open spec fn spec_h24(s: Seq<u8>, i: int) -> Option<(int, u8)> {
    if i > 0 && i <= s.len() && crate::lexer::spec_word_byte(s[i - 1]) {
        None
    } else {
        let e = crate::lexer::spec_digit_run_end(s, i);
        if e == i || e - i > 2 {
            None
        } else if e < s.len() && crate::lexer::spec_word_byte(s[e]) {
            None
        } else {
            match crate::lexer::spec_digits_value(s, i, e) {
                None => None,
                Some(v) => if v < 1 || v > 24 {
                    None
                } else {
                    Some((e, v as u8))
                },
            }
        }
    }
}

/// A 24-hour clock hour from 1 to 24, plain or zero-padded, word-bounded.
fn h24(s: &[u8], i: usize) -> (r: Option<(usize, u8)>)
    ensures
        r is Some <==> spec_h24(s@, i as int) is Some,
        r is Some ==> ((r->0).0 as int, (r->0).1) == spec_h24(s@, i as int)->0,
{
    proof {
        reveal(spec_h24);
    }
    if i > 0 && i <= s.len() && is_word_byte(s[i - 1]) {
        return None;
    }
    let e = digit_run_end(s, i);
    if e == i || e - i > 2 {
        return None;
    }
    if e < s.len() && is_word_byte(s[e]) {
        return None;
    }
    let v = match digits_value(s, i, e) {
        Some(v) => v,
        None => {
            return None;
        },
    };
    if v < 1 || v > 24 {
        return None;
    }
    Some((e, v as u8))
}

/// Where a two-digit minute or second, with no word boundary required
/// after it, is read at `i` (specification).
#[verifier::opaque]
pub open spec fn spec_two_digit_sixty(s: Seq<u8>, i: int) -> Option<(int, u8)> {
    if i > 0 && i <= s.len() && crate::lexer::spec_word_byte(s[i - 1]) {
        None
    } else if !(0 <= i < s.len() && crate::lexer::spec_digit_byte(s[i])) {
        None
    } else if !(i + 1 < s.len() && crate::lexer::spec_digit_byte(s[i + 1])) {
        None
    } else {
        match crate::lexer::spec_digits_value(s, i, i + 2) {
            None => None,
            Some(v) => if v > 59 {
                None
            } else {
                Some((i + 2, v as u8))
            },
        }
    }
}

/// A two-digit minute or second, with no word boundary required after.
fn two_digit_sixty(s: &[u8], i: usize) -> (r: Option<(usize, u8)>)
    ensures
        r is Some <==> spec_two_digit_sixty(s@, i as int) is Some,
        r is Some ==> ((r->0).0 as int, (r->0).1) == spec_two_digit_sixty(s@, i as int)->0,
{
    proof {
        reveal(spec_two_digit_sixty);
    }
    if i > 0 && i <= s.len() && is_word_byte(s[i - 1]) {
        return None;
    }
    if !(i < s.len() && is_digit_byte(s[i])) {
        return None;
    }
    if !(i + 1 < s.len() && is_digit_byte(s[i + 1])) {
        return None;
    }
    let v = match digits_value(s, i, i + 2) {
        Some(v) => v,
        None => {
            return None;
        },
    };
    if v > 59 {
        return None;
    }
    Some((i + 2, v as u8))
}

/// All readings of a count at `i` (specification): a full numeral run
/// without word bounds when it starts with a nonzero digit and fits,
/// then a spelled-out small number.
#[verifier::opaque]
pub open spec fn spec_count(s: Seq<u8>, i: int) -> Seq<(usize, u32)> {
    let numeric: Seq<(usize, u32)> = if 0 <= i < s.len() && crate::lexer::spec_digit_byte(s[i])
        && s[i] != 48 {
        let e = crate::lexer::spec_digit_run_end(s, i);
        match crate::lexer::spec_digits_value(s, i, e) {
            Some(v) => seq![(e as usize, v as u32)],
            None => Seq::empty(),
        }
    } else {
        Seq::empty()
    };
    let worded: Seq<(usize, u32)> = match spec_a_count(s, i) {
        Some(p) => seq![(p.0 as usize, p.1)],
        None => Seq::empty(),
    };
    numeric + worded
}

/// A count: a numeral without bounds, or a spelled-out small number.
fn count(s: &[u8], i: usize) -> (v: Vec<(usize, u32)>)
    ensures
        v@ == spec_count(s@, i as int),
{
    proof {
        reveal(spec_count);
    }
    let mut v: Vec<(usize, u32)> = Vec::new();
    if i < s.len() && is_digit_byte(s[i]) && s[i] != 48 {
        let e = digit_run_end(s, i);
        match digits_value(s, i, e) {
            Some(val) => {
                v.push((e, val));
            },
            None => {},
        }
    }
    match a_count(s, i) {
        Some(p) => {
            v.push(p);
        },
        None => {},
    }
    proof {
        assert(v@ =~= spec_count(s@, i as int));
    }
    v
}

// ---------------------------------------------------------------------
// rules
// ---------------------------------------------------------------------

/// Where one of the date-part separators is read at `i`
/// (specification).
#[verifier::opaque]
pub open spec fn spec_sep_punct(s: Seq<u8>, i: int) -> Option<int> {
    if 0 <= i < s.len() && (s[i] == 46 || s[i] == 47 || s[i] == 45) {
        Some(i + 1)
    } else {
        None
    }
}

/// One of the date-part separators.
fn sep_punct(s: &[u8], i: usize) -> (r: Option<usize>)
    ensures
        r is Some <==> spec_sep_punct(s@, i as int) is Some,
        r is Some ==> r->0 as int == spec_sep_punct(s@, i as int)->0,
{
    proof {
        reveal(spec_sep_punct);
    }
    if i < s.len() && (s[i] == 46 || s[i] == 47 || s[i] == 45) {
        Some(i + 1)
    } else {
        None
    }
}

/// The suffixed-year readings built from one numeral reading
/// (specification): one entry per era suffix that follows it.
pub open spec fn spec_suffixed_from(
    s: Seq<u8>,
    j: usize,
    yv: u32,
    sufs: Seq<(usize, bool)>,
    k: int,
) -> Seq<(usize, YearAst)>
    decreases sufs.len() - k,
{
    if !(0 <= k < sufs.len()) {
        Seq::empty()
    } else {
        let (j2, bce) = sufs[k];
        seq![(j2, YearAst::Suffixed { y: yv, bce })] + spec_suffixed_from(s, j, yv, sufs, k + 1)
    }
}

/// The suffixed-year readings built from the numeral readings at `i`
/// (specification).
pub open spec fn spec_year_suffixed(s: Seq<u8>, sys: Seq<(usize, u32)>, k: int) -> Seq<
    (usize, YearAst),
>
    decreases sys.len() - k,
{
    if !(0 <= k < sys.len()) {
        Seq::empty()
    } else {
        let (j, yv) = sys[k];
        spec_suffixed_from(s, j, yv, spec_year_suffix(s, spec_ws_end(s, j as int)), 0)
            + spec_year_suffixed(s, sys, k + 1)
    }
}

/// All readings of a written year at `i` (specification): a short
/// year, a plain numeral with an optional minus sign, then a numeral
/// with an era suffix.
#[verifier::opaque]
pub open spec fn spec_year_rule(s: Seq<u8>, i: int) -> Seq<(usize, YearAst)> {
    (match spec_short_year(s, i) {
        Some(p) => seq![(p.0 as usize, YearAst::Short { y: p.1 })],
        None => Seq::empty(),
    }) + (if 0 <= i < s.len() && s[i] == 45 {
        match spec_n_year(s, i + 1) {
            Some(p) => seq![(p.0 as usize, YearAst::Plain { y: p.1, negative: true })],
            None => Seq::empty(),
        }
    } else {
        Seq::empty()
    }) + (match spec_n_year(s, i) {
        Some(p) => seq![(p.0 as usize, YearAst::Plain { y: p.1, negative: false })],
        None => Seq::empty(),
    }) + spec_year_suffixed(s, spec_suffix_year(s, i), 0)
}

/// A written year: a short year, a plain numeral with an optional minus
/// sign, or a numeral with an era suffix.
fn year_rule(s: &[u8], i: usize) -> (v: Vec<(usize, YearAst)>)
    ensures
        v@ == spec_year_rule(s@, i as int),
{
    proof {
        reveal(spec_year_rule);
    }
    let mut v: Vec<(usize, YearAst)> = Vec::new();
    match short_year(s, i) {
        Some((j, y)) => {
            v.push((j, YearAst::Short { y }));
        },
        None => {},
    }
    if i < s.len() && s[i] == 45 {
        match n_year(s, i + 1) {
            Some((j, y)) => {
                v.push((j, YearAst::Plain { y, negative: true }));
            },
            None => {},
        }
    }
    match n_year(s, i) {
        Some((j, y)) => {
            v.push((j, YearAst::Plain { y, negative: false }));
        },
        None => {},
    }
    let ghost base = v@;
    let sys = suffix_year(s, i);
    let mut k: usize = 0;
    while k < sys.len()
        invariant
            k <= sys.len(),
            sys@ == spec_suffix_year(s@, i as int),
            v@ + spec_year_suffixed(s@, sys@, k as int) == base + spec_year_suffixed(
                s@,
                sys@,
                0,
            ),
        decreases sys.len() - k,
    {
        let ghost vk = v@;
        let (j, yv) = sys[k];
        let p = skip_ws(s, j);
        let sufs = year_suffix(s, p);
        let mut k2: usize = 0;
        while k2 < sufs.len()
            invariant
                k2 <= sufs.len(),
                sufs@ == spec_year_suffix(s@, spec_ws_end(s@, j as int)),
                v@ + spec_suffixed_from(s@, j, yv, sufs@, k2 as int) == vk
                    + spec_suffixed_from(s@, j, yv, sufs@, 0),
            decreases sufs.len() - k2,
        {
            let ghost v2 = v@;
            let (j2, bce) = sufs[k2];
            v.push((j2, YearAst::Suffixed { y: yv, bce }));
            proof {
                assert(v@ + spec_suffixed_from(s@, j, yv, sufs@, k2 as int + 1) =~= v2
                    + spec_suffixed_from(s@, j, yv, sufs@, k2 as int));
            }
            k2 = k2 + 1;
        }
        proof {
            assert(v@ =~= v@ + spec_suffixed_from(s@, j, yv, sufs@, sufs@.len() as int));
            assert(v@ + spec_year_suffixed(s@, sys@, k as int + 1) =~= vk
                + spec_year_suffixed(s@, sys@, k as int));
        }
        k = k + 1;
    }
    proof {
        assert(v@ =~= v@ + spec_year_suffixed(s@, sys@, sys@.len() as int));
        assert(base =~= spec_year_rule(s@, i as int).take(base.len() as int));
        assert(v@ =~= spec_year_rule(s@, i as int));
    }
    v
}

/// The clock-hour readings at `i` (specification): the twelve-hour
/// candidates, or the single 24-hour one.
pub open spec fn spec_hours(s: Seq<u8>, i: int, twelve: bool) -> Seq<(usize, u8)> {
    if twelve {
        spec_h12(s, i)
    } else {
        match spec_h24(s, i) {
            Some(p) => seq![(p.0 as usize, p.1)],
            None => Seq::empty(),
        }
    }
}

/// The minute reading glued to an hour ending at `j` (specification).
pub open spec fn spec_colon_minute(s: Seq<u8>, j: usize) -> Option<(int, u8)> {
    if crate::lexer::spec_at(s, j as int) == 58 {
        spec_two_digit_sixty(s, j as int + 1)
    } else {
        None
    }
}

/// The bare-hour readings (specification).
pub open spec fn spec_hp_plain(s: Seq<u8>, hs: Seq<(usize, u8)>, k: int) -> Seq<
    (usize, u8, Option<u8>, Option<u8>),
>
    decreases hs.len() - k,
{
    if !(0 <= k < hs.len()) {
        Seq::empty()
    } else {
        let (j, h) = hs[k];
        seq![(j, h, None::<u8>, None::<u8>)] + spec_hp_plain(s, hs, k + 1)
    }
}

/// The hour-and-minute readings (specification).
pub open spec fn spec_hp_minute(s: Seq<u8>, hs: Seq<(usize, u8)>, k: int) -> Seq<
    (usize, u8, Option<u8>, Option<u8>),
>
    decreases hs.len() - k,
{
    if !(0 <= k < hs.len()) {
        Seq::empty()
    } else {
        let (j, h) = hs[k];
        (match spec_colon_minute(s, j) {
            Some(p) => seq![(p.0 as usize, h, Some(p.1), None::<u8>)],
            None => Seq::empty(),
        }) + spec_hp_minute(s, hs, k + 1)
    }
}

/// The hour, minute and second readings (specification).
pub open spec fn spec_hp_second(s: Seq<u8>, hs: Seq<(usize, u8)>, k: int) -> Seq<
    (usize, u8, Option<u8>, Option<u8>),
>
    decreases hs.len() - k,
{
    if !(0 <= k < hs.len()) {
        Seq::empty()
    } else {
        let (j, h) = hs[k];
        (match spec_colon_minute(s, j) {
            Some(p) => match spec_colon_minute(s, p.0 as usize) {
                Some(q) => seq![(q.0 as usize, h, Some(p.1), Some(q.1))],
                None => Seq::empty(),
            },
            None => Seq::empty(),
        }) + spec_hp_second(s, hs, k + 1)
    }
}

/// All clock-hour readings with optional minutes and seconds at `i`
/// (specification): bare hours first, then with minutes, then with
/// minutes and seconds.
#[verifier::opaque]
pub open spec fn spec_hour_parts(s: Seq<u8>, i: int, twelve: bool) -> Seq<
    (usize, u8, Option<u8>, Option<u8>),
> {
    let hs = spec_hours(s, i, twelve);
    spec_hp_plain(s, hs, 0) + spec_hp_minute(s, hs, 0) + spec_hp_second(s, hs, 0)
}

/// Clock hours with optional minutes and seconds, glued with colons.
fn hour_parts(s: &[u8], i: usize, twelve: bool) -> (v: Vec<(usize, u8, Option<u8>, Option<u8>)>)
    ensures
        v@ == spec_hour_parts(s@, i as int, twelve),
{
    proof {
        reveal(spec_hour_parts);
    }
    let mut hours: Vec<(usize, u8)> = Vec::new();
    if twelve {
        hours = h12(s, i);
    } else {
        match h24(s, i) {
            Some(p) => {
                hours.push(p);
            },
            None => {},
        }
    }
    proof {
        assert(hours@ =~= spec_hours(s@, i as int, twelve));
    }
    let mut v: Vec<(usize, u8, Option<u8>, Option<u8>)> = Vec::new();
    let mut k: usize = 0;
    while k < hours.len()
        invariant
            k <= hours.len(),
            hours@ == spec_hours(s@, i as int, twelve),
            v@ + spec_hp_plain(s@, hours@, k as int) == spec_hp_plain(s@, hours@, 0),
        decreases hours.len() - k,
    {
        let ghost v0 = v@;
        let (j, h) = hours[k];
        v.push((j, h, None, None));
        proof {
            assert(v@ + spec_hp_plain(s@, hours@, k as int + 1) =~= v0 + spec_hp_plain(
                s@,
                hours@,
                k as int,
            ));
        }
        k = k + 1;
    }
    proof {
        assert(v@ =~= v@ + spec_hp_plain(s@, hours@, hours@.len() as int));
    }
    let ghost base1 = v@;
    k = 0;
    while k < hours.len()
        invariant
            k <= hours.len(),
            hours@ == spec_hours(s@, i as int, twelve),
            v@ + spec_hp_minute(s@, hours@, k as int) == base1 + spec_hp_minute(s@, hours@, 0),
        decreases hours.len() - k,
    {
        let ghost v0 = v@;
        let (j, h) = hours[k];
        if j < s.len() && s[j] == 58 {
            match two_digit_sixty(s, j + 1) {
                Some((j2, mm)) => {
                    v.push((j2, h, Some(mm), None));
                },
                None => {},
            }
        }
        proof {
            assert(v@ + spec_hp_minute(s@, hours@, k as int + 1) =~= v0 + spec_hp_minute(
                s@,
                hours@,
                k as int,
            ));
        }
        k = k + 1;
    }
    proof {
        assert(v@ =~= v@ + spec_hp_minute(s@, hours@, hours@.len() as int));
    }
    let ghost base2 = v@;
    k = 0;
    while k < hours.len()
        invariant
            k <= hours.len(),
            hours@ == spec_hours(s@, i as int, twelve),
            v@ + spec_hp_second(s@, hours@, k as int) == base2 + spec_hp_second(s@, hours@, 0),
        decreases hours.len() - k,
    {
        let ghost v0 = v@;
        let (j, h) = hours[k];
        if j < s.len() && s[j] == 58 {
            match two_digit_sixty(s, j + 1) {
                Some((j2, mm)) => {
                    if j2 < s.len() && s[j2] == 58 {
                        match two_digit_sixty(s, j2 + 1) {
                            Some((j3, ss)) => {
                                v.push((j3, h, Some(mm), Some(ss)));
                            },
                            None => {},
                        }
                    }
                },
                None => {},
            }
        }
        proof {
            assert(v@ + spec_hp_second(s@, hours@, k as int + 1) =~= v0 + spec_hp_second(
                s@,
                hours@,
                k as int,
            ));
        }
        k = k + 1;
    }
    proof {
        assert(v@ =~= v@ + spec_hp_second(s@, hours@, hours@.len() as int));
        assert(v@ =~= spec_hour_parts(s@, i as int, twelve));
    }
    v
}

/// The twelve-hour readings with an optional meridiem (specification):
/// for each hour form, the suffixed reading first, then the bare one.
pub open spec fn spec_time12(
    s: Seq<u8>,
    hp: Seq<(usize, u8, Option<u8>, Option<u8>)>,
    k: int,
) -> Seq<(usize, TimeAst)>
    decreases hp.len() - k,
{
    if !(0 <= k < hp.len()) {
        Seq::empty()
    } else {
        let (j, h, mm, ss) = hp[k];
        (match spec_am_pm(s, spec_ws_end(s, j as int)) {
            Some(p) => seq![
                (p.0 as usize, TimeAst::Hour12 { hour: h, minute: mm, second: ss, pm: Some(p.1) }),
            ],
            None => Seq::empty(),
        }) + seq![(j, TimeAst::Hour12 { hour: h, minute: mm, second: ss, pm: None })]
            + spec_time12(s, hp, k + 1)
    }
}

/// The 24-hour readings (specification).
pub open spec fn spec_time24(
    s: Seq<u8>,
    hp: Seq<(usize, u8, Option<u8>, Option<u8>)>,
    k: int,
) -> Seq<(usize, TimeAst)>
    decreases hp.len() - k,
{
    if !(0 <= k < hp.len()) {
        Seq::empty()
    } else {
        let (j, h, mm, ss) = hp[k];
        seq![(j, TimeAst::Hour24 { hour: h, minute: mm, second: ss })] + spec_time24(s, hp, k + 1)
    }
}

/// All readings of a clock time at `i` (specification): twelve-hour
/// forms with an optional meridiem, then 24-hour forms, then a named
/// time.
#[verifier::opaque]
pub open spec fn spec_time_rule(s: Seq<u8>, i: int) -> Seq<(usize, TimeAst)> {
    spec_time12(s, spec_hour_parts(s, i, true), 0) + spec_time24(
        s,
        spec_hour_parts(s, i, false),
        0,
    ) + (match spec_named_time(s, i) {
        Some(p) => seq![(p.0 as usize, p.1)],
        None => Seq::empty(),
    })
}

/// A clock reading: a 12-hour form with an optional meridiem, a 24-hour
/// form, or a named time.
fn time_rule(s: &[u8], i: usize) -> (v: Vec<(usize, TimeAst)>)
    ensures
        v@ == spec_time_rule(s@, i as int),
{
    proof {
        reveal(spec_time_rule);
    }
    let mut v: Vec<(usize, TimeAst)> = Vec::new();
    let hp12 = hour_parts(s, i, true);
    let mut k: usize = 0;
    while k < hp12.len()
        invariant
            k <= hp12.len(),
            hp12@ == spec_hour_parts(s@, i as int, true),
            v@ + spec_time12(s@, hp12@, k as int) == spec_time12(s@, hp12@, 0),
        decreases hp12.len() - k,
    {
        let ghost v0 = v@;
        let (j, h, mm, ss) = hp12[k];
        let p = skip_ws(s, j);
        match am_pm(s, p) {
            Some((j2, pm)) => {
                v.push((j2, TimeAst::Hour12 { hour: h, minute: mm, second: ss, pm: Some(pm) }));
            },
            None => {},
        }
        v.push((j, TimeAst::Hour12 { hour: h, minute: mm, second: ss, pm: None }));
        proof {
            assert(v@ + spec_time12(s@, hp12@, k as int + 1) =~= v0 + spec_time12(
                s@,
                hp12@,
                k as int,
            ));
        }
        k = k + 1;
    }
    proof {
        assert(v@ =~= v@ + spec_time12(s@, hp12@, hp12@.len() as int));
    }
    let ghost base1 = v@;
    let hp24 = hour_parts(s, i, false);
    k = 0;
    while k < hp24.len()
        invariant
            k <= hp24.len(),
            hp24@ == spec_hour_parts(s@, i as int, false),
            v@ + spec_time24(s@, hp24@, k as int) == base1 + spec_time24(s@, hp24@, 0),
        decreases hp24.len() - k,
    {
        let ghost v0 = v@;
        let (j, h, mm, ss) = hp24[k];
        v.push((j, TimeAst::Hour24 { hour: h, minute: mm, second: ss }));
        proof {
            assert(v@ + spec_time24(s@, hp24@, k as int + 1) =~= v0 + spec_time24(
                s@,
                hp24@,
                k as int,
            ));
        }
        k = k + 1;
    }
    proof {
        assert(v@ =~= v@ + spec_time24(s@, hp24@, hp24@.len() as int));
    }
    match named_time(s, i) {
        Some((j, t)) => {
            v.push((j, t));
        },
        None => {},
    }
    proof {
        assert(v@ =~= spec_time_rule(s@, i as int));
    }
    v
}

/// The clock readings from one starting position, each optionally
/// followed by "on" (specification): the suffixed reading first.
pub open spec fn spec_aton_times(s: Seq<u8>, ts: Seq<(usize, TimeAst)>, k: int) -> Seq<
    (usize, TimeAst),
>
    decreases ts.len() - k,
{
    if !(0 <= k < ts.len()) {
        Seq::empty()
    } else {
        let (j, t) = ts[k];
        (match crate::lexer::spec_match_word(
            s,
            spec_ws_end(s, j as int),
            "on".spec_bytes(),
            true,
            false,
            true,
        ) {
            Some(j3) => seq![(j3 as usize, t)],
            None => Seq::empty(),
        }) + seq![(j, t)] + spec_aton_times(s, ts, k + 1)
    }
}

/// All readings of an optional "at", a clock time and an optional "on"
/// at `i` (specification): the readings after "at" first.
#[verifier::opaque]
pub open spec fn spec_at_time_on(s: Seq<u8>, i: int) -> Seq<(usize, TimeAst)> {
    (match crate::lexer::spec_match_word(s, i, "at".spec_bytes(), true, true, false) {
        Some(j) => spec_aton_times(s, spec_time_rule(s, spec_ws_end(s, j)), 0),
        None => Seq::empty(),
    }) + spec_aton_times(s, spec_time_rule(s, i), 0)
}

/// "at"? clock-time "on"? before a day.
fn at_time_on(s: &[u8], i: usize) -> (v: Vec<(usize, TimeAst)>)
    ensures
        v@ == spec_at_time_on(s@, i as int),
{
    proof {
        reveal(spec_at_time_on);
    }
    let mut v: Vec<(usize, TimeAst)> = Vec::new();
    match match_word(s, i, "at", true, true, false) {
        Some(j0) => {
            let p0 = skip_ws(s, j0);
            let ts = time_rule(s, p0);
            let mut k: usize = 0;
            while k < ts.len()
                invariant
                    k <= ts.len(),
                    ts@ == spec_time_rule(s@, p0 as int),
                    v@ + spec_aton_times(s@, ts@, k as int) == spec_aton_times(s@, ts@, 0),
                decreases ts.len() - k,
            {
                let ghost v0 = v@;
                let (j, t) = ts[k];
                let p2 = skip_ws(s, j);
                match match_word(s, p2, "on", true, false, true) {
                    Some(j3) => {
                        v.push((j3, t));
                    },
                    None => {},
                }
                v.push((j, t));
                proof {
                    assert(v@ + spec_aton_times(s@, ts@, k as int + 1) =~= v0 + spec_aton_times(
                        s@,
                        ts@,
                        k as int,
                    ));
                }
                k = k + 1;
            }
            proof {
                assert(v@ =~= v@ + spec_aton_times(s@, ts@, ts@.len() as int));
            }
        },
        None => {},
    }
    let ghost base = v@;
    let ts = time_rule(s, i);
    let mut k: usize = 0;
    while k < ts.len()
        invariant
            k <= ts.len(),
            ts@ == spec_time_rule(s@, i as int),
            v@ + spec_aton_times(s@, ts@, k as int) == base + spec_aton_times(s@, ts@, 0),
        decreases ts.len() - k,
    {
        let ghost v0 = v@;
        let (j, t) = ts[k];
        let p2 = skip_ws(s, j);
        match match_word(s, p2, "on", true, false, true) {
            Some(j3) => {
                v.push((j3, t));
            },
            None => {},
        }
        v.push((j, t));
        proof {
            assert(v@ + spec_aton_times(s@, ts@, k as int + 1) =~= v0 + spec_aton_times(
                s@,
                ts@,
                k as int,
            ));
        }
        k = k + 1;
    }
    proof {
        assert(v@ =~= v@ + spec_aton_times(s@, ts@, ts@.len() as int));
        assert(v@ =~= spec_at_time_on(s@, i as int));
    }
    v
}

/// All readings of "at" followed by a clock time at `i`
/// (specification).
#[verifier::opaque]
pub open spec fn spec_at_time(s: Seq<u8>, i: int) -> Seq<(usize, TimeAst)> {
    match crate::lexer::spec_match_word(s, i, "at".spec_bytes(), true, true, false) {
        Some(j) => spec_time_rule(s, spec_ws_end(s, j)),
        None => Seq::empty(),
    }
}

/// "at" followed by a clock time, after a day.
fn at_time(s: &[u8], i: usize) -> (v: Vec<(usize, TimeAst)>)
    ensures
        v@ == spec_at_time(s@, i as int),
{
    proof {
        reveal(spec_at_time);
    }
    match match_word(s, i, "at", true, true, false) {
        Some(j) => time_rule(s, skip_ws(s, j)),
        None => {
            let v: Vec<(usize, TimeAst)> = Vec::new();
            proof {
                assert(v@ =~= spec_at_time(s@, i as int));
            }
            v
        },
    }
}

/// All readings of an ordinal day of the month at `i` (specification):
/// a numeric ordinal, a spelled-out ordinal, then a Roman day name.
#[verifier::opaque]
pub open spec fn spec_o_day(s: Seq<u8>, i: int) -> Seq<(usize, OrdDay)> {
    (match spec_n_ordinal(s, i) {
        Some(p) => seq![(p.0 as usize, OrdDay::Num(p.1))],
        None => Seq::empty(),
    }) + (match spec_a_ordinal(s, i) {
        Some(p) => seq![(p.0 as usize, OrdDay::Num(p.1))],
        None => Seq::empty(),
    }) + (match spec_roman(s, i) {
        Some(p) => seq![(p.0 as usize, OrdDay::Roman(p.1))],
        None => Seq::empty(),
    })
}

/// An ordinal day of the month: numeral, word or Roman name.
fn o_day(s: &[u8], i: usize) -> (v: Vec<(usize, OrdDay)>)
    ensures
        v@ == spec_o_day(s@, i as int),
{
    proof {
        reveal(spec_o_day);
    }
    let mut v: Vec<(usize, OrdDay)> = Vec::new();
    match n_ordinal(s, i) {
        Some((j, d)) => {
            v.push((j, OrdDay::Num(d)));
        },
        None => {},
    }
    match a_ordinal(s, i) {
        Some((j, d)) => {
            v.push((j, OrdDay::Num(d)));
        },
        None => {},
    }
    match roman(s, i) {
        Some((j, r)) => {
            v.push((j, OrdDay::Roman(r)));
        },
        None => {},
    }
    proof {
        assert(v@ =~= spec_o_day(s@, i as int));
    }
    v
}

/// All readings of a day of the month at `i` (specification): a plain
/// numeral first, then the ordinal forms.
#[verifier::opaque]
pub open spec fn spec_o_n_day(s: Seq<u8>, i: int) -> Seq<(usize, OrdDay)> {
    (match spec_n_day(s, i) {
        Some(p) => seq![(p.0 as usize, OrdDay::Num(p.1))],
        None => Seq::empty(),
    }) + spec_o_day(s, i)
}

/// A day of the month: a plain numeral or an ordinal form.
fn o_n_day(s: &[u8], i: usize) -> (v: Vec<(usize, OrdDay)>)
    ensures
        v@ == spec_o_n_day(s@, i as int),
{
    proof {
        reveal(spec_o_n_day);
    }
    let mut v: Vec<(usize, OrdDay)> = Vec::new();
    match n_day(s, i) {
        Some((j, d)) => {
            v.push((j, OrdDay::Num(d)));
        },
        None => {},
    }
    let mut od = o_day(s, i);
    v.append(&mut od);
    proof {
        assert(v@ =~= spec_o_n_day(s@, i as int));
    }
    v
}

/// All readings of a weekday name with an optional comma glued to it,
/// at `i` (specification): for each name reading, the comma variant
/// first, then the bare one.
pub open spec fn spec_day_prefix_from(s: Seq<u8>, ds: Seq<(usize, u8)>, k: int) -> Seq<
    (usize, u8),
>
    decreases ds.len() - k,
{
    if !(0 <= k < ds.len()) {
        Seq::empty()
    } else {
        let (j, wd) = ds[k];
        (if j < s.len() && s[j as int] == 44 {
            seq![(((j + 1) as usize), wd)]
        } else {
            Seq::empty()
        }) + seq![(j, wd)] + spec_day_prefix_from(s, ds, k + 1)
    }
}

/// All readings of a weekday name with an optional comma glued to it.
#[verifier::opaque]
pub open spec fn spec_day_prefix(s: Seq<u8>, i: int) -> Seq<(usize, u8)> {
    spec_day_prefix_from(s, spec_a_day(s, i), 0)
}

/// A weekday name with an optional comma glued to it.
fn day_prefix(s: &[u8], i: usize) -> (v: Vec<(usize, u8)>)
    ensures
        v@ == spec_day_prefix(s@, i as int),
{
    proof {
        reveal(spec_day_prefix);
    }
    let ds = a_day(s, i);
    let mut v: Vec<(usize, u8)> = Vec::new();
    let mut k: usize = 0;
    while k < ds.len()
        invariant
            k <= ds.len(),
            ds@ == spec_a_day(s@, i as int),
            v@ + spec_day_prefix_from(s@, ds@, k as int) == spec_day_prefix_from(s@, ds@, 0),
        decreases ds.len() - k,
    {
        let ghost v0 = v@;
        let (j, wd) = ds[k];
        if j < s.len() && s[j] == 44 {
            v.push((j + 1, wd));
        }
        v.push((j, wd));
        proof {
            assert(v@ + spec_day_prefix_from(s@, ds@, k as int + 1) =~= v0
                + spec_day_prefix_from(s@, ds@, k as int));
        }
        k = k + 1;
    }
    proof {
        assert(v@ =~= v@ + spec_day_prefix_from(s@, ds@, ds@.len() as int));
    }
    v
}

/// The optional weekday prefix of an alphabetic date (specification):
/// each prefix reading followed by the position after it, then the
/// bare position.
pub open spec fn spec_prefix_starts_from(s: Seq<u8>, dp: Seq<(usize, u8)>, k: int) -> Seq<
    (usize, Option<u8>),
>
    decreases dp.len() - k,
{
    if !(0 <= k < dp.len()) {
        Seq::empty()
    } else {
        let (j, wd) = dp[k];
        seq![((spec_ws_end(s, j as int) as usize), Some(wd))] + spec_prefix_starts_from(
            s,
            dp,
            k + 1,
        )
    }
}

/// The optional weekday prefix of an alphabetic date, with the bare
/// position last.
#[verifier::opaque]
pub open spec fn spec_prefix_starts(s: Seq<u8>, i: int) -> Seq<(usize, Option<u8>)> {
    spec_prefix_starts_from(s, spec_day_prefix(s, i), 0) + seq![((i as usize), None::<u8>)]
}

/// The optional weekday prefix of an alphabetic date: each prefix
/// reading followed by the position after it, then the bare position.
fn prefix_starts(s: &[u8], i: usize) -> (v: Vec<(usize, Option<u8>)>)
    ensures
        v@ == spec_prefix_starts(s@, i as int),
{
    proof {
        reveal(spec_prefix_starts);
    }
    let mut v: Vec<(usize, Option<u8>)> = Vec::new();
    let dp = day_prefix(s, i);
    let mut k: usize = 0;
    while k < dp.len()
        invariant
            k <= dp.len(),
            dp@ == spec_day_prefix(s@, i as int),
            v@ + spec_prefix_starts_from(s@, dp@, k as int) == spec_prefix_starts_from(
                s@,
                dp@,
                0,
            ),
        decreases dp.len() - k,
    {
        let ghost v0 = v@;
        let (j, wd) = dp[k];
        v.push((skip_ws(s, j), Some(wd)));
        proof {
            assert(v@ + spec_prefix_starts_from(s@, dp@, k as int + 1) =~= v0
                + spec_prefix_starts_from(s@, dp@, k as int));
        }
        k = k + 1;
    }
    v.push((i, None));
    proof {
        assert(v@ =~= spec_prefix_starts(s@, i as int));
    }
    v
}

/// The numeric-date readings that begin with a year reading
/// (specification): year, separator, first numeric part, separator,
/// second numeric part; `month_first` tells which part is the month.
pub open spec fn spec_nd_year_first(
    s: Seq<u8>,
    ys: Seq<(usize, YearAst)>,
    k: int,
    month_first: bool,
) -> Seq<(usize, (YearAst, u8, u8))>
    decreases ys.len() - k,
{
    if !(0 <= k < ys.len()) {
        Seq::empty()
    } else {
        let (j1, y) = ys[k];
        (match spec_sep_punct(s, spec_ws_end(s, j1 as int)) {
            None => Seq::empty(),
            Some(p2) => {
                let p3 = spec_ws_end(s, p2);
                let first = if month_first {
                    spec_n_month(s, p3)
                } else {
                    spec_n_day(s, p3)
                };
                match first {
                    None => Seq::empty(),
                    Some((j2, a)) => match spec_sep_punct(s, spec_ws_end(s, j2)) {
                        None => Seq::empty(),
                        Some(q2) => {
                            let q3 = spec_ws_end(s, q2);
                            let second = if month_first {
                                spec_n_day(s, q3)
                            } else {
                                spec_n_month(s, q3)
                            };
                            match second {
                                None => Seq::empty(),
                                Some((j3, b)) => if month_first {
                                    seq![(j3 as usize, (y, a, b))]
                                } else {
                                    seq![(j3 as usize, (y, b, a))]
                                },
                            }
                        },
                    },
                }
            },
        }) + spec_nd_year_first(s, ys, k + 1, month_first)
    }
}

/// The year readings that end a numeric date (specification): one
/// entry per year reading, carrying the month and day already read.
pub open spec fn spec_nd_year_last(
    ys: Seq<(usize, YearAst)>,
    k: int,
    mo: u8,
    d: u8,
) -> Seq<(usize, (YearAst, u8, u8))>
    decreases ys.len() - k,
{
    if !(0 <= k < ys.len()) {
        Seq::empty()
    } else {
        let (j3, y) = ys[k];
        seq![(j3, (y, mo, d))] + spec_nd_year_last(ys, k + 1, mo, d)
    }
}

/// The numeric-date readings that end with a year reading
/// (specification): first numeric part, separator, second numeric
/// part, separator, year; `month_first` tells which part is the month.
pub open spec fn spec_nd_year_last_outer(s: Seq<u8>, i: int, month_first: bool) -> Seq<
    (usize, (YearAst, u8, u8)),
> {
    let first = if month_first {
        spec_n_month(s, i)
    } else {
        spec_n_day(s, i)
    };
    match first {
        None => Seq::empty(),
        Some((j1, a)) => match spec_sep_punct(s, spec_ws_end(s, j1)) {
            None => Seq::empty(),
            Some(p2) => {
                let p3 = spec_ws_end(s, p2);
                let second = if month_first {
                    spec_n_day(s, p3)
                } else {
                    spec_n_month(s, p3)
                };
                match second {
                    None => Seq::empty(),
                    Some((j2, b)) => match spec_sep_punct(s, spec_ws_end(s, j2)) {
                        None => Seq::empty(),
                        Some(q2) => {
                            let q3 = spec_ws_end(s, q2);
                            if month_first {
                                spec_nd_year_last(spec_year_rule(s, q3), 0, a, b)
                            } else {
                                spec_nd_year_last(spec_year_rule(s, q3), 0, b, a)
                            }
                        },
                    },
                }
            },
        },
    }
}

/// All numeric-date readings at `i` (specification), in the grammar's
/// order of part arrangements: year month day, year day month, month
/// day year, day month year.
#[verifier::opaque]
pub open spec fn spec_n_date(s: Seq<u8>, i: int) -> Seq<(usize, (YearAst, u8, u8))> {
    spec_nd_year_first(s, spec_year_rule(s, i), 0, true) + spec_nd_year_first(
        s,
        spec_year_rule(s, i),
        0,
        false,
    ) + spec_nd_year_last_outer(s, i, true) + spec_nd_year_last_outer(s, i, false)
}

/// One numeric-date arrangement that begins with the year readings.
fn nd_year_first(s: &[u8], i: usize, month_first: bool) -> (v: Vec<(usize, (YearAst, u8, u8))>)
    ensures
        v@ == spec_nd_year_first(s@, spec_year_rule(s@, i as int), 0, month_first),
{
    let mut v: Vec<(usize, (YearAst, u8, u8))> = Vec::new();
    let ys = year_rule(s, i);
    let mut k: usize = 0;
    while k < ys.len()
        invariant
            k <= ys.len(),
            ys@ == spec_year_rule(s@, i as int),
            v@ + spec_nd_year_first(s@, ys@, k as int, month_first) == spec_nd_year_first(
                s@,
                ys@,
                0,
                month_first,
            ),
        decreases ys.len() - k,
    {
        let ghost v0 = v@;
        let (j1, y) = ys[k];
        match sep_punct(s, skip_ws(s, j1)) {
            Some(p2) => {
                let p3 = skip_ws(s, p2);
                let first = if month_first {
                    n_month(s, p3)
                } else {
                    n_day(s, p3)
                };
                match first {
                    Some((j2, a)) => {
                        match sep_punct(s, skip_ws(s, j2)) {
                            Some(q2) => {
                                let q3 = skip_ws(s, q2);
                                let second = if month_first {
                                    n_day(s, q3)
                                } else {
                                    n_month(s, q3)
                                };
                                match second {
                                    Some((j3, b)) => {
                                        if month_first {
                                            v.push((j3, (y, a, b)));
                                        } else {
                                            v.push((j3, (y, b, a)));
                                        }
                                    },
                                    None => {},
                                }
                            },
                            None => {},
                        }
                    },
                    None => {},
                }
            },
            None => {},
        }
        proof {
            assert(v@ + spec_nd_year_first(s@, ys@, k as int + 1, month_first) =~= v0
                + spec_nd_year_first(s@, ys@, k as int, month_first));
        }
        k = k + 1;
    }
    proof {
        assert(v@ =~= v@ + spec_nd_year_first(s@, ys@, ys@.len() as int, month_first));
    }
    v
}

/// One numeric-date arrangement that ends with the year readings.
fn nd_year_last(s: &[u8], i: usize, month_first: bool) -> (v: Vec<(usize, (YearAst, u8, u8))>)
    ensures
        v@ == spec_nd_year_last_outer(s@, i as int, month_first),
{
    let mut v: Vec<(usize, (YearAst, u8, u8))> = Vec::new();
    let first = if month_first {
        n_month(s, i)
    } else {
        n_day(s, i)
    };
    match first {
        Some((j1, a)) => {
            match sep_punct(s, skip_ws(s, j1)) {
                Some(p2) => {
                    let p3 = skip_ws(s, p2);
                    let second = if month_first {
                        n_day(s, p3)
                    } else {
                        n_month(s, p3)
                    };
                    match second {
                        Some((j2, b)) => {
                            match sep_punct(s, skip_ws(s, j2)) {
                                Some(q2) => {
                                    let q3 = skip_ws(s, q2);
                                    let (mo, d) = if month_first {
                                        (a, b)
                                    } else {
                                        (b, a)
                                    };
                                    let ys = year_rule(s, q3);
                                    let mut k: usize = 0;
                                    while k < ys.len()
                                        invariant
                                            k <= ys.len(),
                                            ys@ == spec_year_rule(s@, q3 as int),
                                            v@ + spec_nd_year_last(ys@, k as int, mo, d)
                                                == spec_nd_year_last(ys@, 0, mo, d),
                                        decreases ys.len() - k,
                                    {
                                        let ghost v0 = v@;
                                        let (j3, y) = ys[k];
                                        v.push((j3, (y, mo, d)));
                                        proof {
                                            assert(v@ + spec_nd_year_last(
                                                ys@,
                                                k as int + 1,
                                                mo,
                                                d,
                                            ) =~= v0 + spec_nd_year_last(ys@, k as int, mo, d));
                                        }
                                        k = k + 1;
                                    }
                                    proof {
                                        assert(v@ =~= v@ + spec_nd_year_last(
                                            ys@,
                                            ys@.len() as int,
                                            mo,
                                            d,
                                        ));
                                    }
                                },
                                None => {},
                            }
                        },
                        None => {},
                    }
                },
                None => {},
            }
        },
        None => {},
    }
    proof {
        assert(v@ =~= spec_nd_year_last_outer(s@, i as int, month_first));
    }
    v
}

/// A numeric date, in any of the four part orders the grammar accepts.
fn n_date(s: &[u8], i: usize) -> (v: Vec<(usize, (YearAst, u8, u8))>)
    ensures
        v@ == spec_n_date(s@, i as int),
{
    proof {
        reveal(spec_n_date);
    }
    let mut v = nd_year_first(s, i, true);
    let mut v2 = nd_year_first(s, i, false);
    v.append(&mut v2);
    let mut v3 = nd_year_last(s, i, true);
    v.append(&mut v3);
    let mut v4 = nd_year_last(s, i, false);
    v.append(&mut v4);
    v
}

/// The alphabetic-date readings for each year reading at one position
/// (specification).
pub open spec fn spec_ad_years(
    ys: Seq<(usize, YearAst)>,
    k: int,
    wd: Option<u8>,
    mo: u8,
    od: OrdDay,
) -> Seq<(usize, DateAst)>
    decreases ys.len() - k,
{
    if !(0 <= k < ys.len()) {
        Seq::empty()
    } else {
        let (j, y) = ys[k];
        seq![(j, DateAst::Alpha { weekday: wd, month: mo, day: od, year: y })] + spec_ad_years(
            ys,
            k + 1,
            wd,
            mo,
            od,
        )
    }
}

/// One alphabetic-date reading per year reading at `q`.
fn ad_years(s: &[u8], q: usize, wd: Option<u8>, mo: u8, od: OrdDay) -> (v: Vec<(usize, DateAst)>)
    ensures
        v@ == spec_ad_years(spec_year_rule(s@, q as int), 0, wd, mo, od),
{
    let mut v: Vec<(usize, DateAst)> = Vec::new();
    let ys = year_rule(s, q);
    let mut k: usize = 0;
    while k < ys.len()
        invariant
            k <= ys.len(),
            ys@ == spec_year_rule(s@, q as int),
            v@ + spec_ad_years(ys@, k as int, wd, mo, od) == spec_ad_years(ys@, 0, wd, mo, od),
        decreases ys.len() - k,
    {
        let ghost v0 = v@;
        let (j, y) = ys[k];
        v.push((j, DateAst::Alpha { weekday: wd, month: mo, day: od, year: y }));
        proof {
            assert(v@ + spec_ad_years(ys@, k as int + 1, wd, mo, od) =~= v0 + spec_ad_years(
                ys@,
                k as int,
                wd,
                mo,
                od,
            ));
        }
        k = k + 1;
    }
    proof {
        assert(v@ =~= v@ + spec_ad_years(ys@, ys@.len() as int, wd, mo, od));
    }
    v
}

/// The month-day-comma-year readings for each day reading after one
/// month (specification).
pub open spec fn spec_ad_p1_days(
    s: Seq<u8>,
    ods: Seq<(usize, OrdDay)>,
    k: int,
    wd: Option<u8>,
    mo: u8,
) -> Seq<(usize, DateAst)>
    decreases ods.len() - k,
{
    if !(0 <= k < ods.len()) {
        Seq::empty()
    } else {
        let (j2, od) = ods[k];
        let p3 = spec_ws_end(s, j2 as int);
        (if 0 <= p3 < s.len() && s[p3] == 44 {
            spec_ad_years(spec_year_rule(s, spec_ws_end(s, p3 + 1)), 0, wd, mo, od)
        } else {
            Seq::empty()
        }) + spec_ad_p1_days(s, ods, k + 1, wd, mo)
    }
}

/// The day readings of the month-day-comma-year production after one
/// month reading.
fn ad_p1_days(s: &[u8], p2: usize, wd: Option<u8>, mo: u8) -> (v: Vec<(usize, DateAst)>)
    ensures
        v@ == spec_ad_p1_days(s@, spec_o_n_day(s@, p2 as int), 0, wd, mo),
{
    let mut v: Vec<(usize, DateAst)> = Vec::new();
    let ods = o_n_day(s, p2);
    let mut k: usize = 0;
    while k < ods.len()
        invariant
            k <= ods.len(),
            ods@ == spec_o_n_day(s@, p2 as int),
            v@ + spec_ad_p1_days(s@, ods@, k as int, wd, mo) == spec_ad_p1_days(
                s@,
                ods@,
                0,
                wd,
                mo,
            ),
        decreases ods.len() - k,
    {
        let ghost v0 = v@;
        let (j2, od) = ods[k];
        let p3 = skip_ws(s, j2);
        if p3 < s.len() && s[p3] == 44 {
            let p4 = skip_ws(s, p3 + 1);
            let mut ys = ad_years(s, p4, wd, mo, od);
            v.append(&mut ys);
        }
        proof {
            assert(v@ + spec_ad_p1_days(s@, ods@, k as int + 1, wd, mo) =~= v0 + spec_ad_p1_days(
                s@,
                ods@,
                k as int,
                wd,
                mo,
            ));
        }
        k = k + 1;
    }
    proof {
        assert(v@ =~= v@ + spec_ad_p1_days(s@, ods@, ods@.len() as int, wd, mo));
    }
    v
}

/// The month-day-comma-year readings from one start (specification).
pub open spec fn spec_ad_p1_months(
    s: Seq<u8>,
    mos: Seq<(usize, u8)>,
    k: int,
    wd: Option<u8>,
) -> Seq<(usize, DateAst)>
    decreases mos.len() - k,
{
    if !(0 <= k < mos.len()) {
        Seq::empty()
    } else {
        let (j1, mo) = mos[k];
        spec_ad_p1_days(s, spec_o_n_day(s, spec_ws_end(s, j1 as int)), 0, wd, mo)
            + spec_ad_p1_months(s, mos, k + 1, wd)
    }
}

/// The month-day-comma-year production from one start.
fn ad_p1_from(s: &[u8], p: usize, wd: Option<u8>) -> (v: Vec<(usize, DateAst)>)
    ensures
        v@ == spec_ad_p1_months(s@, spec_a_month(s@, p as int), 0, wd),
{
    let mut v: Vec<(usize, DateAst)> = Vec::new();
    let mos = a_month(s, p);
    let mut k: usize = 0;
    while k < mos.len()
        invariant
            k <= mos.len(),
            mos@ == spec_a_month(s@, p as int),
            v@ + spec_ad_p1_months(s@, mos@, k as int, wd) == spec_ad_p1_months(
                s@,
                mos@,
                0,
                wd,
            ),
        decreases mos.len() - k,
    {
        let ghost v0 = v@;
        let (j1, mo) = mos[k];
        let mut d = ad_p1_days(s, skip_ws(s, j1), wd, mo);
        v.append(&mut d);
        proof {
            assert(v@ + spec_ad_p1_months(s@, mos@, k as int + 1, wd) =~= v0
                + spec_ad_p1_months(s@, mos@, k as int, wd));
        }
        k = k + 1;
    }
    proof {
        assert(v@ =~= v@ + spec_ad_p1_months(s@, mos@, mos@.len() as int, wd));
    }
    v
}

/// The day-month-year readings after one day reading (specification).
pub open spec fn spec_ad_p2_months(
    s: Seq<u8>,
    mos: Seq<(usize, u8)>,
    k: int,
    wd: Option<u8>,
    d: u8,
) -> Seq<(usize, DateAst)>
    decreases mos.len() - k,
{
    if !(0 <= k < mos.len()) {
        Seq::empty()
    } else {
        let (j2, mo) = mos[k];
        spec_ad_years(spec_year_rule(s, spec_ws_end(s, j2 as int)), 0, wd, mo, OrdDay::Num(d))
            + spec_ad_p2_months(s, mos, k + 1, wd, d)
    }
}

/// The day-month-year production from one start (specification).
pub open spec fn spec_ad_p2(s: Seq<u8>, p: int, wd: Option<u8>) -> Seq<(usize, DateAst)> {
    match spec_n_day(s, p) {
        None => Seq::empty(),
        Some((j1, d)) => spec_ad_p2_months(
            s,
            spec_a_month(s, spec_ws_end(s, j1)),
            0,
            wd,
            d,
        ),
    }
}

/// The day-month-year production from one start.
fn ad_p2_from(s: &[u8], p: usize, wd: Option<u8>) -> (v: Vec<(usize, DateAst)>)
    ensures
        v@ == spec_ad_p2(s@, p as int, wd),
{
    let mut v: Vec<(usize, DateAst)> = Vec::new();
    match n_day(s, p) {
        Some((j1, d)) => {
            let mos = a_month(s, skip_ws(s, j1));
            let ghost p2 = spec_ws_end(s@, j1 as int);
            let mut k: usize = 0;
            while k < mos.len()
                invariant
                    k <= mos.len(),
                    mos@ == spec_a_month(s@, p2),
                    v@ + spec_ad_p2_months(s@, mos@, k as int, wd, d) == spec_ad_p2_months(
                        s@,
                        mos@,
                        0,
                        wd,
                        d,
                    ),
                decreases mos.len() - k,
            {
                let ghost v0 = v@;
                let (j2, mo) = mos[k];
                let mut ys = ad_years(s, skip_ws(s, j2), wd, mo, OrdDay::Num(d));
                v.append(&mut ys);
                proof {
                    assert(v@ + spec_ad_p2_months(s@, mos@, k as int + 1, wd, d) =~= v0
                        + spec_ad_p2_months(s@, mos@, k as int, wd, d));
                }
                k = k + 1;
            }
            proof {
                assert(v@ =~= v@ + spec_ad_p2_months(s@, mos@, mos@.len() as int, wd, d));
            }
        },
        None => {},
    }
    proof {
        assert(v@ =~= spec_ad_p2(s@, p as int, wd));
    }
    v
}

/// The the-ordinal-of-month-year readings after one ordinal reading
/// (specification).
pub open spec fn spec_ad_p3_months(
    s: Seq<u8>,
    mos: Seq<(usize, u8)>,
    k: int,
    wd: Option<u8>,
    od: OrdDay,
) -> Seq<(usize, DateAst)>
    decreases mos.len() - k,
{
    if !(0 <= k < mos.len()) {
        Seq::empty()
    } else {
        let (j3, mo) = mos[k];
        spec_ad_years(spec_year_rule(s, spec_ws_end(s, j3 as int)), 0, wd, mo, od)
            + spec_ad_p3_months(s, mos, k + 1, wd, od)
    }
}

/// The the-ordinal-of-month-year readings for each ordinal reading
/// (specification).
pub open spec fn spec_ad_p3_days(
    s: Seq<u8>,
    ods: Seq<(usize, OrdDay)>,
    k: int,
    wd: Option<u8>,
) -> Seq<(usize, DateAst)>
    decreases ods.len() - k,
{
    if !(0 <= k < ods.len()) {
        Seq::empty()
    } else {
        let (j1, od) = ods[k];
        (match crate::lexer::spec_match_word(
            s,
            spec_ws_end(s, j1 as int),
            "of".spec_bytes(),
            true,
            false,
            false,
        ) {
            None => Seq::empty(),
            Some(j2) => spec_ad_p3_months(
                s,
                spec_a_month(s, spec_ws_end(s, j2)),
                0,
                wd,
                od,
            ),
        }) + spec_ad_p3_days(s, ods, k + 1, wd)
    }
}

/// The the-ordinal-of-month-year production from one start
/// (specification).
pub open spec fn spec_ad_p3(s: Seq<u8>, p: int, wd: Option<u8>) -> Seq<(usize, DateAst)> {
    match crate::lexer::spec_match_word(s, p, "the".spec_bytes(), true, true, false) {
        None => Seq::empty(),
        Some(j0) => spec_ad_p3_days(s, spec_o_day(s, spec_ws_end(s, j0)), 0, wd),
    }
}

/// The the-ordinal-of-month-year production from one start.
fn ad_p3_from(s: &[u8], p: usize, wd: Option<u8>) -> (v: Vec<(usize, DateAst)>)
    ensures
        v@ == spec_ad_p3(s@, p as int, wd),
{
    let mut v: Vec<(usize, DateAst)> = Vec::new();
    match match_word(s, p, "the", true, true, false) {
        Some(j0) => {
            let ods = o_day(s, skip_ws(s, j0));
            let ghost p1 = spec_ws_end(s@, j0 as int);
            let mut k: usize = 0;
            while k < ods.len()
                invariant
                    k <= ods.len(),
                    ods@ == spec_o_day(s@, p1),
                    v@ + spec_ad_p3_days(s@, ods@, k as int, wd) == spec_ad_p3_days(
                        s@,
                        ods@,
                        0,
                        wd,
                    ),
                decreases ods.len() - k,
            {
                let ghost v0 = v@;
                let (j1, od) = ods[k];
                match match_word(s, skip_ws(s, j1), "of", true, false, false) {
                    Some(j2) => {
                        let mos = a_month(s, skip_ws(s, j2));
                        let ghost p3 = spec_ws_end(s@, j2 as int);
                        let ghost vin = v@;
                        let mut k2: usize = 0;
                        while k2 < mos.len()
                            invariant
                                k2 <= mos.len(),
                                mos@ == spec_a_month(s@, p3),
                                v@ + spec_ad_p3_months(s@, mos@, k2 as int, wd, od) == vin
                                    + spec_ad_p3_months(s@, mos@, 0, wd, od),
                            decreases mos.len() - k2,
                        {
                            let ghost v2 = v@;
                            let (j3, mo) = mos[k2];
                            let mut ys = ad_years(s, skip_ws(s, j3), wd, mo, od);
                            v.append(&mut ys);
                            proof {
                                assert(v@ + spec_ad_p3_months(s@, mos@, k2 as int + 1, wd, od)
                                    =~= v2 + spec_ad_p3_months(s@, mos@, k2 as int, wd, od));
                            }
                            k2 = k2 + 1;
                        }
                        proof {
                            assert(v@ =~= v@ + spec_ad_p3_months(
                                s@,
                                mos@,
                                mos@.len() as int,
                                wd,
                                od,
                            ));
                        }
                    },
                    None => {},
                }
                proof {
                    assert(v@ + spec_ad_p3_days(s@, ods@, k as int + 1, wd) =~= v0
                        + spec_ad_p3_days(s@, ods@, k as int, wd));
                }
                k = k + 1;
            }
            proof {
                assert(v@ =~= v@ + spec_ad_p3_days(s@, ods@, ods@.len() as int, wd));
            }
        },
        None => {},
    }
    proof {
        assert(v@ =~= spec_ad_p3(s@, p as int, wd));
    }
    v
}

/// One alphabetic-date production applied from every start
/// (specification); `prod` selects the production.
pub open spec fn spec_ad_prod(
    s: Seq<u8>,
    starts: Seq<(usize, Option<u8>)>,
    k: int,
    prod: int,
) -> Seq<(usize, DateAst)>
    decreases starts.len() - k,
{
    if !(0 <= k < starts.len()) {
        Seq::empty()
    } else {
        let (p, wd) = starts[k];
        (if prod == 1 {
            spec_ad_p1_months(s, spec_a_month(s, p as int), 0, wd)
        } else if prod == 2 {
            spec_ad_p2(s, p as int, wd)
        } else {
            spec_ad_p3(s, p as int, wd)
        }) + spec_ad_prod(s, starts, k + 1, prod)
    }
}

/// All alphabetic-date readings at `i` (specification), in the
/// grammar's order of productions: month day comma year, then day
/// month year, then the-ordinal-of-month year, each tried from every
/// weekday-prefix reading.
#[verifier::opaque]
pub open spec fn spec_a_date(s: Seq<u8>, i: int) -> Seq<(usize, DateAst)> {
    let starts = spec_prefix_starts(s, i);
    spec_ad_prod(s, starts, 0, 1) + spec_ad_prod(s, starts, 0, 2) + spec_ad_prod(s, starts, 0, 3)
}

/// One production of the alphabetic date from every start.
fn ad_prod(s: &[u8], starts: &Vec<(usize, Option<u8>)>, prod: u8) -> (v: Vec<(usize, DateAst)>)
    requires
        1 <= prod <= 3,
    ensures
        v@ == spec_ad_prod(s@, starts@, 0, prod as int),
{
    let mut v: Vec<(usize, DateAst)> = Vec::new();
    let mut k: usize = 0;
    while k < starts.len()
        invariant
            k <= starts.len(),
            1 <= prod <= 3,
            v@ + spec_ad_prod(s@, starts@, k as int, prod as int) == spec_ad_prod(
                s@,
                starts@,
                0,
                prod as int,
            ),
        decreases starts.len() - k,
    {
        let ghost v0 = v@;
        let (p, wd) = starts[k];
        let mut part = if prod == 1 {
            ad_p1_from(s, p, wd)
        } else if prod == 2 {
            ad_p2_from(s, p, wd)
        } else {
            ad_p3_from(s, p, wd)
        };
        v.append(&mut part);
        proof {
            assert(v@ + spec_ad_prod(s@, starts@, k as int + 1, prod as int) =~= v0
                + spec_ad_prod(s@, starts@, k as int, prod as int));
        }
        k = k + 1;
    }
    proof {
        assert(v@ =~= v@ + spec_ad_prod(s@, starts@, starts@.len() as int, prod as int));
    }
    v
}

/// An alphabetic date with an explicit year.
fn a_date(s: &[u8], i: usize) -> (v: Vec<(usize, DateAst)>)
    ensures
        v@ == spec_a_date(s@, i as int),
{
    proof {
        reveal(spec_a_date);
    }
    let starts = prefix_starts(s, i);
    let mut v = ad_prod(s, &starts, 1);
    let mut v2 = ad_prod(s, &starts, 2);
    v.append(&mut v2);
    let mut v3 = ad_prod(s, &starts, 3);
    v.append(&mut v3);
    v
}

/// The numeric-date readings as day parts (specification).
pub open spec fn spec_sd_numeric(nd: Seq<(usize, (YearAst, u8, u8))>, k: int) -> Seq<
    (usize, SomeDayAst),
>
    decreases nd.len() - k,
{
    if !(0 <= k < nd.len()) {
        Seq::empty()
    } else {
        let (j, ymd) = nd[k];
        seq![
            (j, SomeDayAst::Date(DateAst::Numeric { year: ymd.0, month: ymd.1, day: ymd.2 })),
        ] + spec_sd_numeric(nd, k + 1)
    }
}

/// The alphabetic-date readings as day parts (specification).
pub open spec fn spec_sd_alpha(ad: Seq<(usize, DateAst)>, k: int) -> Seq<(usize, SomeDayAst)>
    decreases ad.len() - k,
{
    if !(0 <= k < ad.len()) {
        Seq::empty()
    } else {
        let (j, d) = ad[k];
        seq![(j, SomeDayAst::Date(d))] + spec_sd_alpha(ad, k + 1)
    }
}

/// All readings of a day fixed by itself at `i` (specification): an
/// adverb, then numeric dates, then alphabetic dates.
#[verifier::opaque]
pub open spec fn spec_specific_day(s: Seq<u8>, i: int) -> Seq<(usize, SomeDayAst)> {
    (match spec_adverb(s, i) {
        Some(p) => seq![(p.0 as usize, SomeDayAst::Adverb(p.1))],
        None => Seq::empty(),
    }) + spec_sd_numeric(spec_n_date(s, i), 0) + spec_sd_alpha(spec_a_date(s, i), 0)
}

/// A day fixed by itself: an adverb or a date with a year.
fn specific_day(s: &[u8], i: usize) -> (v: Vec<(usize, SomeDayAst)>)
    ensures
        v@ == spec_specific_day(s@, i as int),
{
    proof {
        reveal(spec_specific_day);
    }
    let mut v: Vec<(usize, SomeDayAst)> = Vec::new();
    match adverb(s, i) {
        Some((j, a)) => {
            v.push((j, SomeDayAst::Adverb(a)));
        },
        None => {},
    }
    let ghost base1 = v@;
    let nd = n_date(s, i);
    let mut k: usize = 0;
    while k < nd.len()
        invariant
            k <= nd.len(),
            nd@ == spec_n_date(s@, i as int),
            v@ + spec_sd_numeric(nd@, k as int) == base1 + spec_sd_numeric(nd@, 0),
        decreases nd.len() - k,
    {
        let ghost v0 = v@;
        let (j, (y, mo, d)) = nd[k];
        v.push((j, SomeDayAst::Date(DateAst::Numeric { year: y, month: mo, day: d })));
        proof {
            assert(v@ + spec_sd_numeric(nd@, k as int + 1) =~= v0 + spec_sd_numeric(
                nd@,
                k as int,
            ));
        }
        k = k + 1;
    }
    proof {
        assert(v@ =~= v@ + spec_sd_numeric(nd@, nd@.len() as int));
    }
    let ghost base2 = v@;
    let ad = a_date(s, i);
    k = 0;
    while k < ad.len()
        invariant
            k <= ad.len(),
            ad@ == spec_a_date(s@, i as int),
            v@ + spec_sd_alpha(ad@, k as int) == base2 + spec_sd_alpha(ad@, 0),
        decreases ad.len() - k,
    {
        let ghost v0 = v@;
        let (j, d) = ad[k];
        v.push((j, SomeDayAst::Date(d)));
        proof {
            assert(v@ + spec_sd_alpha(ad@, k as int + 1) =~= v0 + spec_sd_alpha(ad@, k as int));
        }
        k = k + 1;
    }
    proof {
        assert(v@ =~= v@ + spec_sd_alpha(ad@, ad@.len() as int));
        assert(v@ =~= spec_specific_day(s@, i as int));
    }
    v
}

/// The ordinal readings of "the" followed by an ordinal, for one
/// weekday prefix (specification).
pub open spec fn spec_od_days(ods: Seq<(usize, OrdDay)>, k: int, wd: Option<u8>) -> Seq<
    (usize, RelativeDayAst),
>
    decreases ods.len() - k,
{
    if !(0 <= k < ods.len()) {
        Seq::empty()
    } else {
        let (j1, od) = ods[k];
        seq![(j1, RelativeDayAst::OrdinalDay { weekday: wd, day: od })] + spec_od_days(
            ods,
            k + 1,
            wd,
        )
    }
}

/// The "the"-ordinal readings from every weekday-prefix reading
/// (specification).
pub open spec fn spec_ordinal_day_from(
    s: Seq<u8>,
    starts: Seq<(usize, Option<u8>)>,
    k: int,
) -> Seq<(usize, RelativeDayAst)>
    decreases starts.len() - k,
{
    if !(0 <= k < starts.len()) {
        Seq::empty()
    } else {
        let (p, wd) = starts[k];
        (match crate::lexer::spec_match_word(
            s,
            p as int,
            "the".spec_bytes(),
            true,
            true,
            false,
        ) {
            None => Seq::empty(),
            Some(j0) => spec_od_days(spec_o_day(s, spec_ws_end(s, j0)), 0, wd),
        }) + spec_ordinal_day_from(s, starts, k + 1)
    }
}

/// All readings of "the" followed by an ordinal day at `i`, with an
/// optional weekday prefix (specification).
#[verifier::opaque]
pub open spec fn spec_ordinal_day(s: Seq<u8>, i: int) -> Seq<(usize, RelativeDayAst)> {
    spec_ordinal_day_from(s, spec_prefix_starts(s, i), 0)
}

/// "the" ordinal, with an optional weekday prefix.
fn ordinal_day(s: &[u8], i: usize) -> (v: Vec<(usize, RelativeDayAst)>)
    ensures
        v@ == spec_ordinal_day(s@, i as int),
{
    proof {
        reveal(spec_ordinal_day);
    }
    let mut v: Vec<(usize, RelativeDayAst)> = Vec::new();
    let starts = prefix_starts(s, i);
    let mut k: usize = 0;
    while k < starts.len()
        invariant
            k <= starts.len(),
            starts@ == spec_prefix_starts(s@, i as int),
            v@ + spec_ordinal_day_from(s@, starts@, k as int) == spec_ordinal_day_from(
                s@,
                starts@,
                0,
            ),
        decreases starts.len() - k,
    {
        let ghost v0 = v@;
        let (p, wd) = starts[k];
        match match_word(s, p, "the", true, true, false) {
            Some(j0) => {
                let ods = o_day(s, skip_ws(s, j0));
                let ghost p1 = spec_ws_end(s@, j0 as int);
                let ghost vin = v@;
                let mut k2: usize = 0;
                while k2 < ods.len()
                    invariant
                        k2 <= ods.len(),
                        ods@ == spec_o_day(s@, p1),
                        v@ + spec_od_days(ods@, k2 as int, wd) == vin + spec_od_days(
                            ods@,
                            0,
                            wd,
                        ),
                    decreases ods.len() - k2,
                {
                    let ghost v2 = v@;
                    let (j1, od) = ods[k2];
                    v.push((j1, RelativeDayAst::OrdinalDay { weekday: wd, day: od }));
                    proof {
                        assert(v@ + spec_od_days(ods@, k2 as int + 1, wd) =~= v2 + spec_od_days(
                            ods@,
                            k2 as int,
                            wd,
                        ));
                    }
                    k2 = k2 + 1;
                }
                proof {
                    assert(v@ =~= v@ + spec_od_days(ods@, ods@.len() as int, wd));
                }
            },
            None => {},
        }
        proof {
            assert(v@ + spec_ordinal_day_from(s@, starts@, k as int + 1) =~= v0
                + spec_ordinal_day_from(s@, starts@, k as int));
        }
        k = k + 1;
    }
    proof {
        assert(v@ =~= v@ + spec_ordinal_day_from(s@, starts@, starts@.len() as int));
    }
    v
}

/// Month-and-day readings for each day reading after one month name
/// (specification).
pub open spec fn spec_dam_days(ods: Seq<(usize, OrdDay)>, k: int, mo: u8) -> Seq<
    (usize, RelativeDayAst),
>
    decreases ods.len() - k,
{
    if !(0 <= k < ods.len()) {
        Seq::empty()
    } else {
        let (j3, od) = ods[k];
        seq![(j3, RelativeDayAst::DayAndMonth { month: mo, day: od })] + spec_dam_days(
            ods,
            k + 1,
            mo,
        )
    }
}

/// The month-name-then-day readings (specification): for each month
/// reading, first with the optional "the", then without.
pub open spec fn spec_dam_months(s: Seq<u8>, mos: Seq<(usize, u8)>, k: int) -> Seq<
    (usize, RelativeDayAst),
>
    decreases mos.len() - k,
{
    if !(0 <= k < mos.len()) {
        Seq::empty()
    } else {
        let (j1, mo) = mos[k];
        let p = spec_ws_end(s, j1 as int);
        (match crate::lexer::spec_match_word(s, p, "the".spec_bytes(), true, false, false) {
            None => Seq::empty(),
            Some(j2) => spec_dam_days(spec_o_n_day(s, spec_ws_end(s, j2)), 0, mo),
        }) + spec_dam_days(spec_o_n_day(s, p), 0, mo) + spec_dam_months(s, mos, k + 1)
    }
}

/// The the-ordinal-of-month readings (specification).
pub open spec fn spec_dam_of_days(s: Seq<u8>, ods: Seq<(usize, OrdDay)>, k: int) -> Seq<
    (usize, RelativeDayAst),
>
    decreases ods.len() - k,
{
    if !(0 <= k < ods.len()) {
        Seq::empty()
    } else {
        let (j1, od) = ods[k];
        (match crate::lexer::spec_match_word(
            s,
            spec_ws_end(s, j1 as int),
            "of".spec_bytes(),
            true,
            false,
            false,
        ) {
            None => Seq::empty(),
            Some(j2) => spec_dam_of_months(s, spec_a_month(s, spec_ws_end(s, j2)), 0, od),
        }) + spec_dam_of_days(s, ods, k + 1)
    }
}

/// The month readings that close a the-ordinal-of-month phrase
/// (specification).
pub open spec fn spec_dam_of_months(s: Seq<u8>, mos: Seq<(usize, u8)>, k: int, od: OrdDay) -> Seq<
    (usize, RelativeDayAst),
>
    decreases mos.len() - k,
{
    if !(0 <= k < mos.len()) {
        Seq::empty()
    } else {
        let (j3, mo) = mos[k];
        seq![(j3, RelativeDayAst::DayAndMonth { month: mo, day: od })] + spec_dam_of_months(
            s,
            mos,
            k + 1,
            od,
        )
    }
}

/// All readings of a month together with a day of that month at `i`
/// (specification): the numeric pair, the month name with a day, then
/// the-ordinal-of-month.
#[verifier::opaque]
pub open spec fn spec_day_and_month(s: Seq<u8>, i: int) -> Seq<(usize, RelativeDayAst)> {
    (match spec_n_month(s, i) {
        None => Seq::empty(),
        Some((j1, mo)) => match spec_sep_punct(s, spec_ws_end(s, j1)) {
            None => Seq::empty(),
            Some(p2) => match spec_n_day(s, spec_ws_end(s, p2)) {
                None => Seq::empty(),
                Some((j2, d)) => seq![
                    (j2 as usize, RelativeDayAst::DayAndMonth { month: mo, day: OrdDay::Num(d) }),
                ],
            },
        },
    }) + spec_dam_months(s, spec_a_month(s, i), 0) + (match crate::lexer::spec_match_word(
        s,
        i,
        "the".spec_bytes(),
        true,
        true,
        false,
    ) {
        None => Seq::empty(),
        Some(j0) => spec_dam_of_days(s, spec_o_day(s, spec_ws_end(s, j0)), 0),
    })
}

/// A month together with a day of that month, in any accepted shape.
fn day_and_month(s: &[u8], i: usize) -> (v: Vec<(usize, RelativeDayAst)>)
    ensures
        v@ == spec_day_and_month(s@, i as int),
{
    proof {
        reveal(spec_day_and_month);
    }
    let mut v: Vec<(usize, RelativeDayAst)> = Vec::new();
    match n_month(s, i) {
        Some((j1, mo)) => {
            match sep_punct(s, skip_ws(s, j1)) {
                Some(p2) => {
                    match n_day(s, skip_ws(s, p2)) {
                        Some((j2, d)) => {
                            v.push(
                                (j2, RelativeDayAst::DayAndMonth { month: mo, day: OrdDay::Num(d) }),
                            );
                        },
                        None => {},
                    }
                },
                None => {},
            }
        },
        None => {},
    }
    let ghost base1 = v@;
    let mos = a_month(s, i);
    let mut k: usize = 0;
    while k < mos.len()
        invariant
            k <= mos.len(),
            mos@ == spec_a_month(s@, i as int),
            v@ + spec_dam_months(s@, mos@, k as int) == base1 + spec_dam_months(s@, mos@, 0),
        decreases mos.len() - k,
    {
        let ghost v0 = v@;
        let (j1, mo) = mos[k];
        let p = skip_ws(s, j1);
        match match_word(s, p, "the", true, false, false) {
            Some(j2) => {
                let ods = o_n_day(s, skip_ws(s, j2));
                let ghost p2 = spec_ws_end(s@, j2 as int);
                let ghost vin = v@;
                let mut k2: usize = 0;
                while k2 < ods.len()
                    invariant
                        k2 <= ods.len(),
                        ods@ == spec_o_n_day(s@, p2),
                        v@ + spec_dam_days(ods@, k2 as int, mo) == vin + spec_dam_days(
                            ods@,
                            0,
                            mo,
                        ),
                    decreases ods.len() - k2,
                {
                    let ghost v2 = v@;
                    let (j3, od) = ods[k2];
                    v.push((j3, RelativeDayAst::DayAndMonth { month: mo, day: od }));
                    proof {
                        assert(v@ + spec_dam_days(ods@, k2 as int + 1, mo) =~= v2
                            + spec_dam_days(ods@, k2 as int, mo));
                    }
                    k2 = k2 + 1;
                }
                proof {
                    assert(v@ =~= v@ + spec_dam_days(ods@, ods@.len() as int, mo));
                }
            },
            None => {},
        }
        let ods = o_n_day(s, p);
        let ghost vin2 = v@;
        let mut k2: usize = 0;
        while k2 < ods.len()
            invariant
                k2 <= ods.len(),
                ods@ == spec_o_n_day(s@, spec_ws_end(s@, j1 as int)),
                v@ + spec_dam_days(ods@, k2 as int, mo) == vin2 + spec_dam_days(ods@, 0, mo),
            decreases ods.len() - k2,
        {
            let ghost v2 = v@;
            let (j3, od) = ods[k2];
            v.push((j3, RelativeDayAst::DayAndMonth { month: mo, day: od }));
            proof {
                assert(v@ + spec_dam_days(ods@, k2 as int + 1, mo) =~= v2 + spec_dam_days(
                    ods@,
                    k2 as int,
                    mo,
                ));
            }
            k2 = k2 + 1;
        }
        proof {
            assert(v@ =~= v@ + spec_dam_days(ods@, ods@.len() as int, mo));
            assert(v@ + spec_dam_months(s@, mos@, k as int + 1) =~= v0 + spec_dam_months(
                s@,
                mos@,
                k as int,
            ));
        }
        k = k + 1;
    }
    proof {
        assert(v@ =~= v@ + spec_dam_months(s@, mos@, mos@.len() as int));
    }
    match match_word(s, i, "the", true, true, false) {
        Some(j0) => {
            let ods = o_day(s, skip_ws(s, j0));
            let ghost p1 = spec_ws_end(s@, j0 as int);
            let ghost base3 = v@;
            let mut k2: usize = 0;
            while k2 < ods.len()
                invariant
                    k2 <= ods.len(),
                    ods@ == spec_o_day(s@, p1),
                    v@ + spec_dam_of_days(s@, ods@, k2 as int) == base3 + spec_dam_of_days(
                        s@,
                        ods@,
                        0,
                    ),
                decreases ods.len() - k2,
            {
                let ghost v0 = v@;
                let (j1, od) = ods[k2];
                match match_word(s, skip_ws(s, j1), "of", true, false, false) {
                    Some(j2) => {
                        let mos2 = a_month(s, skip_ws(s, j2));
                        let ghost p3 = spec_ws_end(s@, j2 as int);
                        let ghost vin = v@;
                        let mut k3: usize = 0;
                        while k3 < mos2.len()
                            invariant
                                k3 <= mos2.len(),
                                mos2@ == spec_a_month(s@, p3),
                                v@ + spec_dam_of_months(s@, mos2@, k3 as int, od) == vin
                                    + spec_dam_of_months(s@, mos2@, 0, od),
                            decreases mos2.len() - k3,
                        {
                            let ghost v2 = v@;
                            let (j3, mo) = mos2[k3];
                            v.push((j3, RelativeDayAst::DayAndMonth { month: mo, day: od }));
                            proof {
                                assert(v@ + spec_dam_of_months(s@, mos2@, k3 as int + 1, od)
                                    =~= v2 + spec_dam_of_months(s@, mos2@, k3 as int, od));
                            }
                            k3 = k3 + 1;
                        }
                        proof {
                            assert(v@ =~= v@ + spec_dam_of_months(
                                s@,
                                mos2@,
                                mos2@.len() as int,
                                od,
                            ));
                        }
                    },
                    None => {},
                }
                proof {
                    assert(v@ + spec_dam_of_days(s@, ods@, k2 as int + 1) =~= v0
                        + spec_dam_of_days(s@, ods@, k2 as int));
                }
                k2 = k2 + 1;
            }
            proof {
                assert(v@ =~= v@ + spec_dam_of_days(s@, ods@, ods@.len() as int));
            }
        },
        None => {},
    }
    proof {
        assert(v@ =~= spec_day_and_month(s@, i as int));
    }
    v
}

/// The weekday-name readings as relative days (specification).
pub open spec fn spec_rd_weekdays(ds: Seq<(usize, u8)>, k: int) -> Seq<(usize, RelativeDayAst)>
    decreases ds.len() - k,
{
    if !(0 <= k < ds.len()) {
        Seq::empty()
    } else {
        let (j, wd) = ds[k];
        seq![(j, RelativeDayAst::Weekday(wd))] + spec_rd_weekdays(ds, k + 1)
    }
}

/// All readings of a day needing an anchor at `i` (specification): a
/// weekday name, "the" with an ordinal, then a month with a day.
#[verifier::opaque]
pub open spec fn spec_relative_day(s: Seq<u8>, i: int) -> Seq<(usize, RelativeDayAst)> {
    spec_rd_weekdays(spec_a_day(s, i), 0) + spec_ordinal_day(s, i) + spec_day_and_month(s, i)
}

/// A day needing an anchor: a weekday name, or a day in a month.
fn relative_day(s: &[u8], i: usize) -> (v: Vec<(usize, RelativeDayAst)>)
    ensures
        v@ == spec_relative_day(s@, i as int),
{
    proof {
        reveal(spec_relative_day);
    }
    let mut v: Vec<(usize, RelativeDayAst)> = Vec::new();
    let ds = a_day(s, i);
    let mut k: usize = 0;
    while k < ds.len()
        invariant
            k <= ds.len(),
            ds@ == spec_a_day(s@, i as int),
            v@ + spec_rd_weekdays(ds@, k as int) == spec_rd_weekdays(ds@, 0),
        decreases ds.len() - k,
    {
        let ghost v0 = v@;
        let (j, wd) = ds[k];
        v.push((j, RelativeDayAst::Weekday(wd)));
        proof {
            assert(v@ + spec_rd_weekdays(ds@, k as int + 1) =~= v0 + spec_rd_weekdays(
                ds@,
                k as int,
            ));
        }
        k = k + 1;
    }
    proof {
        assert(v@ =~= v@ + spec_rd_weekdays(ds@, ds@.len() as int));
    }
    let mut od = ordinal_day(s, i);
    v.append(&mut od);
    let mut dm = day_and_month(s, i);
    v.append(&mut dm);
    v
}

/// The relative-day readings as day parts (specification).
pub open spec fn spec_sd_relative(rd: Seq<(usize, RelativeDayAst)>, k: int) -> Seq<
    (usize, SomeDayAst),
>
    decreases rd.len() - k,
{
    if !(0 <= k < rd.len()) {
        Seq::empty()
    } else {
        let (j, r) = rd[k];
        seq![(j, SomeDayAst::Relative(r))] + spec_sd_relative(rd, k + 1)
    }
}

/// All readings of the day part of a moment at `i` (specification):
/// days fixed by themselves first, then days needing an anchor.
#[verifier::opaque]
pub open spec fn spec_some_day(s: Seq<u8>, i: int) -> Seq<(usize, SomeDayAst)> {
    spec_specific_day(s, i) + spec_sd_relative(spec_relative_day(s, i), 0)
}

/// The day part of a moment.
fn some_day(s: &[u8], i: usize) -> (v: Vec<(usize, SomeDayAst)>)
    ensures
        v@ == spec_some_day(s@, i as int),
{
    proof {
        reveal(spec_some_day);
    }
    let mut v = specific_day(s, i);
    let ghost base = v@;
    let rd = relative_day(s, i);
    let mut k: usize = 0;
    while k < rd.len()
        invariant
            k <= rd.len(),
            rd@ == spec_relative_day(s@, i as int),
            v@ + spec_sd_relative(rd@, k as int) == base + spec_sd_relative(rd@, 0),
        decreases rd.len() - k,
    {
        let ghost v0 = v@;
        let (j, r) = rd[k];
        v.push((j, SomeDayAst::Relative(r)));
        proof {
            assert(v@ + spec_sd_relative(rd@, k as int + 1) =~= v0 + spec_sd_relative(
                rd@,
                k as int,
            ));
        }
        k = k + 1;
    }
    proof {
        assert(v@ =~= v@ + spec_sd_relative(rd@, rd@.len() as int));
    }
    v
}

/// The trailing clock readings attached to one day reading
/// (specification).
pub open spec fn spec_pit_ats(
    ats: Seq<(usize, TimeAst)>,
    k: int,
    ton: Option<TimeAst>,
    day: SomeDayAst,
) -> Seq<(usize, PointAst)>
    decreases ats.len() - k,
{
    if !(0 <= k < ats.len()) {
        Seq::empty()
    } else {
        let (j2, t2) = ats[k];
        seq![(j2, PointAst::DayPoint { time_on: ton, day, time_at: Some(t2) })] + spec_pit_ats(
            ats,
            k + 1,
            ton,
            day,
        )
    }
}

/// The day readings with their optional trailing clock readings, under
/// one optional leading clock reading (specification).
pub open spec fn spec_pit_days(
    s: Seq<u8>,
    sds: Seq<(usize, SomeDayAst)>,
    k: int,
    ton: Option<TimeAst>,
) -> Seq<(usize, PointAst)>
    decreases sds.len() - k,
{
    if !(0 <= k < sds.len()) {
        Seq::empty()
    } else {
        let (j, day) = sds[k];
        spec_pit_ats(spec_at_time(s, spec_ws_end(s, j as int)), 0, ton, day) + seq![
            (j, PointAst::DayPoint { time_on: ton, day, time_at: None }),
        ] + spec_pit_days(s, sds, k + 1, ton)
    }
}

/// The day-point readings under each leading clock reading
/// (specification).
pub open spec fn spec_pit_pre(s: Seq<u8>, aton: Seq<(usize, TimeAst)>, k: int) -> Seq<
    (usize, PointAst),
>
    decreases aton.len() - k,
{
    if !(0 <= k < aton.len()) {
        Seq::empty()
    } else {
        let (j, t) = aton[k];
        spec_pit_days(s, spec_some_day(s, spec_ws_end(s, j as int)), 0, Some(t))
            + spec_pit_pre(s, aton, k + 1)
    }
}

/// The first-moment phrase readings as points (specification).
pub open spec fn spec_pit_first(fts: Seq<usize>, k: int) -> Seq<(usize, PointAst)>
    decreases fts.len() - k,
{
    if !(0 <= k < fts.len()) {
        Seq::empty()
    } else {
        seq![(fts[k], PointAst::SpecificTime(SpecTimeAst::First))] + spec_pit_first(fts, k + 1)
    }
}

/// The last-moment phrase readings as points (specification).
pub open spec fn spec_pit_last(lts: Seq<usize>, k: int) -> Seq<(usize, PointAst)>
    decreases lts.len() - k,
{
    if !(0 <= k < lts.len()) {
        Seq::empty()
    } else {
        seq![(lts[k], PointAst::SpecificTime(SpecTimeAst::Last))] + spec_pit_last(lts, k + 1)
    }
}

/// The clock readings that complete one numeric date into a precise
/// date-time (specification).
pub open spec fn spec_pit_prec_hours(
    hps: Seq<(usize, u8, Option<u8>, Option<u8>)>,
    k: int,
    ymd: (YearAst, u8, u8),
) -> Seq<(usize, PointAst)>
    decreases hps.len() - k,
{
    if !(0 <= k < hps.len()) {
        Seq::empty()
    } else {
        let (j2, h, mm, ss) = hps[k];
        seq![
            (
                j2,
                PointAst::SpecificTime(
                    SpecTimeAst::Precise {
                        year: ymd.0,
                        month: ymd.1,
                        day: ymd.2,
                        time: TimeAst::Hour24 { hour: h, minute: mm, second: ss },
                    },
                ),
            ),
        ] + spec_pit_prec_hours(hps, k + 1, ymd)
    }
}

/// The precise date-time readings (specification).
pub open spec fn spec_pit_precise(
    s: Seq<u8>,
    nds: Seq<(usize, (YearAst, u8, u8))>,
    k: int,
) -> Seq<(usize, PointAst)>
    decreases nds.len() - k,
{
    if !(0 <= k < nds.len()) {
        Seq::empty()
    } else {
        let (j, ymd) = nds[k];
        spec_pit_prec_hours(
            spec_hour_parts(s, spec_ws_end(s, j as int), false),
            0,
            ymd,
        ) + spec_pit_precise(s, nds, k + 1)
    }
}

/// The bare clock readings as points (specification).
pub open spec fn spec_pit_bare(ts: Seq<(usize, TimeAst)>, k: int) -> Seq<(usize, PointAst)>
    decreases ts.len() - k,
{
    if !(0 <= k < ts.len()) {
        Seq::empty()
    } else {
        let (j, t) = ts[k];
        seq![(j, PointAst::BareTime(t))] + spec_pit_bare(ts, k + 1)
    }
}

/// All readings of a point in time at `i` (specification): days with
/// optional clock readings, absolute termini, precise date-times, then
/// bare clock readings.
#[verifier::opaque]
pub open spec fn spec_point_in_time(s: Seq<u8>, i: int) -> Seq<(usize, PointAst)> {
    spec_pit_pre(s, spec_at_time_on(s, i), 0) + spec_pit_days(s, spec_some_day(s, i), 0, None)
        + spec_pit_first(spec_first_time(s, i), 0) + spec_pit_last(spec_last_time(s, i), 0)
        + spec_pit_precise(s, spec_n_date(s, i), 0) + spec_pit_bare(spec_time_rule(s, i), 0)
}

/// The day readings from one position, each with its optional trailing
/// clock reading, under one optional leading clock reading.
fn pit_days(s: &[u8], p: usize, ton: Option<TimeAst>) -> (v: Vec<(usize, PointAst)>)
    ensures
        v@ == spec_pit_days(s@, spec_some_day(s@, p as int), 0, ton),
{
    let mut v: Vec<(usize, PointAst)> = Vec::new();
    let sds = some_day(s, p);
    let mut k: usize = 0;
    while k < sds.len()
        invariant
            k <= sds.len(),
            sds@ == spec_some_day(s@, p as int),
            v@ + spec_pit_days(s@, sds@, k as int, ton) == spec_pit_days(s@, sds@, 0, ton),
        decreases sds.len() - k,
    {
        let ghost v0 = v@;
        let (j, day) = sds[k];
        let ats = at_time(s, skip_ws(s, j));
        let ghost vin = v@;
        let mut k2: usize = 0;
        while k2 < ats.len()
            invariant
                k2 <= ats.len(),
                ats@ == spec_at_time(s@, spec_ws_end(s@, j as int)),
                v@ + spec_pit_ats(ats@, k2 as int, ton, day) == vin + spec_pit_ats(
                    ats@,
                    0,
                    ton,
                    day,
                ),
            decreases ats.len() - k2,
        {
            let ghost v2 = v@;
            let (j2, t2) = ats[k2];
            v.push((j2, PointAst::DayPoint { time_on: ton, day, time_at: Some(t2) }));
            proof {
                assert(v@ + spec_pit_ats(ats@, k2 as int + 1, ton, day) =~= v2 + spec_pit_ats(
                    ats@,
                    k2 as int,
                    ton,
                    day,
                ));
            }
            k2 = k2 + 1;
        }
        proof {
            assert(v@ =~= v@ + spec_pit_ats(ats@, ats@.len() as int, ton, day));
        }
        v.push((j, PointAst::DayPoint { time_on: ton, day, time_at: None }));
        proof {
            assert(v@ + spec_pit_days(s@, sds@, k as int + 1, ton) =~= v0 + spec_pit_days(
                s@,
                sds@,
                k as int,
                ton,
            ));
        }
        k = k + 1;
    }
    proof {
        assert(v@ =~= v@ + spec_pit_days(s@, sds@, sds@.len() as int, ton));
    }
    v
}

/// A point in time: a day with optional clock readings, an absolute
/// terminus or precise date-time, or a bare clock reading.
fn point_in_time(s: &[u8], i: usize) -> (v: Vec<(usize, PointAst)>)
    ensures
        v@ == spec_point_in_time(s@, i as int),
{
    proof {
        reveal(spec_point_in_time);
    }
    let mut v: Vec<(usize, PointAst)> = Vec::new();
    let aton = at_time_on(s, i);
    let mut k: usize = 0;
    while k < aton.len()
        invariant
            k <= aton.len(),
            aton@ == spec_at_time_on(s@, i as int),
            v@ + spec_pit_pre(s@, aton@, k as int) == spec_pit_pre(s@, aton@, 0),
        decreases aton.len() - k,
    {
        let ghost v0 = v@;
        let (j, t) = aton[k];
        let mut part = pit_days(s, skip_ws(s, j), Some(t));
        v.append(&mut part);
        proof {
            assert(v@ + spec_pit_pre(s@, aton@, k as int + 1) =~= v0 + spec_pit_pre(
                s@,
                aton@,
                k as int,
            ));
        }
        k = k + 1;
    }
    proof {
        assert(v@ =~= v@ + spec_pit_pre(s@, aton@, aton@.len() as int));
    }
    let mut bare_days = pit_days(s, i, None);
    v.append(&mut bare_days);
    let ghost base1 = v@;
    let fts = first_time(s, i);
    k = 0;
    while k < fts.len()
        invariant
            k <= fts.len(),
            fts@ == spec_first_time(s@, i as int),
            v@ + spec_pit_first(fts@, k as int) == base1 + spec_pit_first(fts@, 0),
        decreases fts.len() - k,
    {
        let ghost v0 = v@;
        v.push((fts[k], PointAst::SpecificTime(SpecTimeAst::First)));
        proof {
            assert(v@ + spec_pit_first(fts@, k as int + 1) =~= v0 + spec_pit_first(
                fts@,
                k as int,
            ));
        }
        k = k + 1;
    }
    proof {
        assert(v@ =~= v@ + spec_pit_first(fts@, fts@.len() as int));
    }
    let ghost base2 = v@;
    let lts = last_time(s, i);
    k = 0;
    while k < lts.len()
        invariant
            k <= lts.len(),
            lts@ == spec_last_time(s@, i as int),
            v@ + spec_pit_last(lts@, k as int) == base2 + spec_pit_last(lts@, 0),
        decreases lts.len() - k,
    {
        let ghost v0 = v@;
        v.push((lts[k], PointAst::SpecificTime(SpecTimeAst::Last)));
        proof {
            assert(v@ + spec_pit_last(lts@, k as int + 1) =~= v0 + spec_pit_last(
                lts@,
                k as int,
            ));
        }
        k = k + 1;
    }
    proof {
        assert(v@ =~= v@ + spec_pit_last(lts@, lts@.len() as int));
    }
    let ghost base3 = v@;
    let nds = n_date(s, i);
    k = 0;
    while k < nds.len()
        invariant
            k <= nds.len(),
            nds@ == spec_n_date(s@, i as int),
            v@ + spec_pit_precise(s@, nds@, k as int) == base3 + spec_pit_precise(s@, nds@, 0),
        decreases nds.len() - k,
    {
        let ghost v0 = v@;
        let (j, ymd) = nds[k];
        let hps = hour_parts(s, skip_ws(s, j), false);
        let ghost vin = v@;
        let mut k2: usize = 0;
        while k2 < hps.len()
            invariant
                k2 <= hps.len(),
                hps@ == spec_hour_parts(s@, spec_ws_end(s@, j as int), false),
                v@ + spec_pit_prec_hours(hps@, k2 as int, ymd) == vin + spec_pit_prec_hours(
                    hps@,
                    0,
                    ymd,
                ),
            decreases hps.len() - k2,
        {
            let ghost v2 = v@;
            let (j2, h, mm, ss) = hps[k2];
            v.push(
                (
                    j2,
                    PointAst::SpecificTime(
                        SpecTimeAst::Precise {
                            year: ymd.0,
                            month: ymd.1,
                            day: ymd.2,
                            time: TimeAst::Hour24 { hour: h, minute: mm, second: ss },
                        },
                    ),
                ),
            );
            proof {
                assert(v@ + spec_pit_prec_hours(hps@, k2 as int + 1, ymd) =~= v2
                    + spec_pit_prec_hours(hps@, k2 as int, ymd));
            }
            k2 = k2 + 1;
        }
        proof {
            assert(v@ =~= v@ + spec_pit_prec_hours(hps@, hps@.len() as int, ymd));
            assert(v@ + spec_pit_precise(s@, nds@, k as int + 1) =~= v0 + spec_pit_precise(
                s@,
                nds@,
                k as int,
            ));
        }
        k = k + 1;
    }
    proof {
        assert(v@ =~= v@ + spec_pit_precise(s@, nds@, nds@.len() as int));
    }
    let ghost base4 = v@;
    let ts = time_rule(s, i);
    k = 0;
    while k < ts.len()
        invariant
            k <= ts.len(),
            ts@ == spec_time_rule(s@, i as int),
            v@ + spec_pit_bare(ts@, k as int) == base4 + spec_pit_bare(ts@, 0),
        decreases ts.len() - k,
    {
        let ghost v0 = v@;
        let (j, t) = ts[k];
        v.push((j, PointAst::BareTime(t)));
        proof {
            assert(v@ + spec_pit_bare(ts@, k as int + 1) =~= v0 + spec_pit_bare(ts@, k as int));
        }
        k = k + 1;
    }
    proof {
        assert(v@ =~= v@ + spec_pit_bare(ts@, ts@.len() as int));
        assert(v@ =~= spec_point_in_time(s@, i as int));
    }
    v
}

/// The direction readings that close one count-and-unit reading
/// (specification).
pub open spec fn spec_adj_dirs(
    dirs: Seq<(usize, DirAst)>,
    k: int,
    n: u32,
    u: UnitAst,
) -> Seq<(usize, AdjustAst)>
    decreases dirs.len() - k,
{
    if !(0 <= k < dirs.len()) {
        Seq::empty()
    } else {
        let (j3, dir) = dirs[k];
        seq![(j3, AdjustAst { count: n, unit: u, direction: dir })] + spec_adj_dirs(
            dirs,
            k + 1,
            n,
            u,
        )
    }
}

/// The adjustment readings built from each count reading
/// (specification).
pub open spec fn spec_adj_counts(s: Seq<u8>, cs: Seq<(usize, u32)>, k: int) -> Seq<
    (usize, AdjustAst),
>
    decreases cs.len() - k,
{
    if !(0 <= k < cs.len()) {
        Seq::empty()
    } else {
        let (j, n) = cs[k];
        (match spec_unit(s, spec_ws_end(s, j as int)) {
            None => Seq::empty(),
            Some((j2, u)) => spec_adj_dirs(
                spec_direction(s, spec_ws_end(s, j2)),
                0,
                n,
                u,
            ),
        }) + spec_adj_counts(s, cs, k + 1)
    }
}

/// All readings of an adjustment clause at `i` (specification): a
/// count, a unit, then a direction.
#[verifier::opaque]
pub open spec fn spec_adjustment(s: Seq<u8>, i: int) -> Seq<(usize, AdjustAst)> {
    spec_adj_counts(s, spec_count(s, i), 0)
}

/// An adjustment clause: a count of units and a direction.
fn adjustment(s: &[u8], i: usize) -> (v: Vec<(usize, AdjustAst)>)
    ensures
        v@ == spec_adjustment(s@, i as int),
{
    proof {
        reveal(spec_adjustment);
    }
    let mut v: Vec<(usize, AdjustAst)> = Vec::new();
    let cs = count(s, i);
    let mut k: usize = 0;
    while k < cs.len()
        invariant
            k <= cs.len(),
            cs@ == spec_count(s@, i as int),
            v@ + spec_adj_counts(s@, cs@, k as int) == spec_adj_counts(s@, cs@, 0),
        decreases cs.len() - k,
    {
        let ghost v0 = v@;
        let (j, n) = cs[k];
        match unit(s, skip_ws(s, j)) {
            Some((j2, u)) => {
                let dirs = direction(s, skip_ws(s, j2));
                let ghost p2 = spec_ws_end(s@, j2 as int);
                let ghost vin = v@;
                let mut k2: usize = 0;
                while k2 < dirs.len()
                    invariant
                        k2 <= dirs.len(),
                        dirs@ == spec_direction(s@, p2),
                        v@ + spec_adj_dirs(dirs@, k2 as int, n, u) == vin + spec_adj_dirs(
                            dirs@,
                            0,
                            n,
                            u,
                        ),
                    decreases dirs.len() - k2,
                {
                    let ghost v2 = v@;
                    let (j3, dir) = dirs[k2];
                    v.push((j3, AdjustAst { count: n, unit: u, direction: dir }));
                    proof {
                        assert(v@ + spec_adj_dirs(dirs@, k2 as int + 1, n, u) =~= v2
                            + spec_adj_dirs(dirs@, k2 as int, n, u));
                    }
                    k2 = k2 + 1;
                }
                proof {
                    assert(v@ =~= v@ + spec_adj_dirs(dirs@, dirs@.len() as int, n, u));
                }
            },
            None => {},
        }
        proof {
            assert(v@ + spec_adj_counts(s@, cs@, k as int + 1) =~= v0 + spec_adj_counts(
                s@,
                cs@,
                k as int,
            ));
        }
        k = k + 1;
    }
    proof {
        assert(v@ =~= v@ + spec_adj_counts(s@, cs@, cs@.len() as int));
    }
    v
}

/// The point readings wrapped as moments under one optional adjustment
/// (specification).
pub open spec fn spec_moment_pts(
    pts: Seq<(usize, PointAst)>,
    k: int,
    adj: Option<AdjustAst>,
) -> Seq<(usize, MomentAst)>
    decreases pts.len() - k,
{
    if !(0 <= k < pts.len()) {
        Seq::empty()
    } else {
        let (j, pt) = pts[k];
        seq![(j, MomentAst { adjustment: adj, point: pt })] + spec_moment_pts(pts, k + 1, adj)
    }
}

/// The moment readings under each adjustment reading (specification).
pub open spec fn spec_moment_adjs(s: Seq<u8>, adjs: Seq<(usize, AdjustAst)>, k: int) -> Seq<
    (usize, MomentAst),
>
    decreases adjs.len() - k,
{
    if !(0 <= k < adjs.len()) {
        Seq::empty()
    } else {
        let (j, adj) = adjs[k];
        spec_moment_pts(spec_point_in_time(s, spec_ws_end(s, j as int)), 0, Some(adj))
            + spec_moment_adjs(s, adjs, k + 1)
    }
}

/// All readings of a moment at `i` (specification): an optional
/// adjustment clause around a point in time.
#[verifier::opaque]
pub open spec fn spec_moment(s: Seq<u8>, i: int) -> Seq<(usize, MomentAst)> {
    spec_moment_adjs(s, spec_adjustment(s, i), 0) + spec_moment_pts(
        spec_point_in_time(s, i),
        0,
        None,
    )
}

/// The point readings from one position as moments under one optional
/// adjustment.
fn moment_pts(s: &[u8], p: usize, adj: Option<AdjustAst>) -> (v: Vec<(usize, MomentAst)>)
    ensures
        v@ == spec_moment_pts(spec_point_in_time(s@, p as int), 0, adj),
{
    let mut v: Vec<(usize, MomentAst)> = Vec::new();
    let pts = point_in_time(s, p);
    let mut k: usize = 0;
    while k < pts.len()
        invariant
            k <= pts.len(),
            pts@ == spec_point_in_time(s@, p as int),
            v@ + spec_moment_pts(pts@, k as int, adj) == spec_moment_pts(pts@, 0, adj),
        decreases pts.len() - k,
    {
        let ghost v0 = v@;
        let (j, pt) = pts[k];
        v.push((j, MomentAst { adjustment: adj, point: pt }));
        proof {
            assert(v@ + spec_moment_pts(pts@, k as int + 1, adj) =~= v0 + spec_moment_pts(
                pts@,
                k as int,
                adj,
            ));
        }
        k = k + 1;
    }
    proof {
        assert(v@ =~= v@ + spec_moment_pts(pts@, pts@.len() as int, adj));
    }
    v
}

/// A moment: an optional adjustment clause around a point in time.
fn moment(s: &[u8], i: usize) -> (v: Vec<(usize, MomentAst)>)
    ensures
        v@ == spec_moment(s@, i as int),
{
    proof {
        reveal(spec_moment);
    }
    let mut v: Vec<(usize, MomentAst)> = Vec::new();
    let adjs = adjustment(s, i);
    let mut k: usize = 0;
    while k < adjs.len()
        invariant
            k <= adjs.len(),
            adjs@ == spec_adjustment(s@, i as int),
            v@ + spec_moment_adjs(s@, adjs@, k as int) == spec_moment_adjs(s@, adjs@, 0),
        decreases adjs.len() - k,
    {
        let ghost v0 = v@;
        let (j, adj) = adjs[k];
        let mut part = moment_pts(s, skip_ws(s, j), Some(adj));
        v.append(&mut part);
        proof {
            assert(v@ + spec_moment_adjs(s@, adjs@, k as int + 1) =~= v0 + spec_moment_adjs(
                s@,
                adjs@,
                k as int,
            ));
        }
        k = k + 1;
    }
    proof {
        assert(v@ =~= v@ + spec_moment_adjs(s@, adjs@, adjs@.len() as int));
    }
    let mut bare = moment_pts(s, i, None);
    v.append(&mut bare);
    v
}

/// The month-name readings as modifiable periods (specification).
pub open spec fn spec_mp_months(mos: Seq<(usize, u8)>, k: int) -> Seq<(usize, ModPeriodAst)>
    decreases mos.len() - k,
{
    if !(0 <= k < mos.len()) {
        Seq::empty()
    } else {
        let (j, mo) = mos[k];
        seq![(j, ModPeriodAst::MonthName(mo))] + spec_mp_months(mos, k + 1)
    }
}

/// The weekday-name readings as modifiable periods (specification).
pub open spec fn spec_mp_days(ds: Seq<(usize, u8)>, k: int) -> Seq<(usize, ModPeriodAst)>
    decreases ds.len() - k,
{
    if !(0 <= k < ds.len()) {
        Seq::empty()
    } else {
        let (j, wd) = ds[k];
        seq![(j, ModPeriodAst::WeekdayName(wd))] + spec_mp_days(ds, k + 1)
    }
}

/// All readings of a period a modifier can shift, at `i`
/// (specification): the fixed period words, then month names, then
/// weekday names.
#[verifier::opaque]
pub open spec fn spec_modifiable_period(s: Seq<u8>, i: int) -> Seq<(usize, ModPeriodAst)> {
    spec_entry(s, i, "weekend", ModPeriodAst::Weekend, true, true, true).add(
        spec_entry(s, i, "week", ModPeriodAst::Week, true, true, true),
    ).add(spec_entry(s, i, "month", ModPeriodAst::Month, true, true, true)).add(
        spec_entry(s, i, "year", ModPeriodAst::Year, true, true, true),
    ).add(spec_entry(s, i, "pay period", ModPeriodAst::PayPeriod, true, true, true)).add(
        spec_entry(s, i, "payperiod", ModPeriodAst::PayPeriod, true, true, true),
    ).add(spec_entry(s, i, "pp", ModPeriodAst::PayPeriod, true, true, true)).add(
        spec_mp_months(spec_a_month(s, i), 0),
    ).add(spec_mp_days(spec_a_day(s, i), 0))
}

/// A period a modifier can shift.
fn modifiable_period(s: &[u8], i: usize) -> (v: Vec<(usize, ModPeriodAst)>)
    ensures
        v@ == spec_modifiable_period(s@, i as int),
{
    proof {
        reveal(spec_modifiable_period);
    }
    let mut v: Vec<(usize, ModPeriodAst)> = Vec::new();
    push_entry(&mut v, s, i, "weekend", ModPeriodAst::Weekend, true, true, true);
    push_entry(&mut v, s, i, "week", ModPeriodAst::Week, true, true, true);
    push_entry(&mut v, s, i, "month", ModPeriodAst::Month, true, true, true);
    push_entry(&mut v, s, i, "year", ModPeriodAst::Year, true, true, true);
    push_entry(&mut v, s, i, "pay period", ModPeriodAst::PayPeriod, true, true, true);
    push_entry(&mut v, s, i, "payperiod", ModPeriodAst::PayPeriod, true, true, true);
    push_entry(&mut v, s, i, "pp", ModPeriodAst::PayPeriod, true, true, true);
    let ghost base1 = v@;
    let mos = a_month(s, i);
    let mut k: usize = 0;
    while k < mos.len()
        invariant
            k <= mos.len(),
            mos@ == spec_a_month(s@, i as int),
            v@ + spec_mp_months(mos@, k as int) == base1 + spec_mp_months(mos@, 0),
        decreases mos.len() - k,
    {
        let ghost v0 = v@;
        let (j, mo) = mos[k];
        v.push((j, ModPeriodAst::MonthName(mo)));
        proof {
            assert(v@ + spec_mp_months(mos@, k as int + 1) =~= v0 + spec_mp_months(
                mos@,
                k as int,
            ));
        }
        k = k + 1;
    }
    proof {
        assert(v@ =~= v@ + spec_mp_months(mos@, mos@.len() as int));
    }
    let ghost base2 = v@;
    let ds = a_day(s, i);
    k = 0;
    while k < ds.len()
        invariant
            k <= ds.len(),
            ds@ == spec_a_day(s@, i as int),
            v@ + spec_mp_days(ds@, k as int) == base2 + spec_mp_days(ds@, 0),
        decreases ds.len() - k,
    {
        let ghost v0 = v@;
        let (j, wd) = ds[k];
        v.push((j, ModPeriodAst::WeekdayName(wd)));
        proof {
            assert(v@ + spec_mp_days(ds@, k as int + 1) =~= v0 + spec_mp_days(ds@, k as int));
        }
        k = k + 1;
    }
    proof {
        assert(v@ =~= v@ + spec_mp_days(ds@, ds@.len() as int));
    }
    v
}

/// The modifiable-period readings wrapped with one modifier
/// (specification).
pub open spec fn spec_modp_items(
    mps: Seq<(usize, ModPeriodAst)>,
    k: int,
    md: ModAst,
) -> Seq<(usize, PeriodAst)>
    decreases mps.len() - k,
{
    if !(0 <= k < mps.len()) {
        Seq::empty()
    } else {
        let (j, p) = mps[k];
        seq![(j, PeriodAst::Modified { modifier: md, period: p })] + spec_modp_items(
            mps,
            k + 1,
            md,
        )
    }
}

/// All readings of a modified period at `i` (specification): a spoken
/// modifier over a modifiable period, then a bare modifiable period,
/// which counts as "this".
#[verifier::opaque]
pub open spec fn spec_modified_period(s: Seq<u8>, i: int) -> Seq<(usize, PeriodAst)> {
    (match spec_modifier(s, i) {
        None => Seq::empty(),
        Some((j, md)) => spec_modp_items(
            spec_modifiable_period(s, spec_ws_end(s, j)),
            0,
            md,
        ),
    }) + spec_modp_items(spec_modifiable_period(s, i), 0, ModAst::This)
}

/// The modifiable-period readings from one position under one
/// modifier.
fn modp_items(s: &[u8], p: usize, md: ModAst) -> (v: Vec<(usize, PeriodAst)>)
    ensures
        v@ == spec_modp_items(spec_modifiable_period(s@, p as int), 0, md),
{
    let mut v: Vec<(usize, PeriodAst)> = Vec::new();
    let mps = modifiable_period(s, p);
    let mut k: usize = 0;
    while k < mps.len()
        invariant
            k <= mps.len(),
            mps@ == spec_modifiable_period(s@, p as int),
            v@ + spec_modp_items(mps@, k as int, md) == spec_modp_items(mps@, 0, md),
        decreases mps.len() - k,
    {
        let ghost v0 = v@;
        let (j, pp) = mps[k];
        v.push((j, PeriodAst::Modified { modifier: md, period: pp }));
        proof {
            assert(v@ + spec_modp_items(mps@, k as int + 1, md) =~= v0 + spec_modp_items(
                mps@,
                k as int,
                md,
            ));
        }
        k = k + 1;
    }
    proof {
        assert(v@ =~= v@ + spec_modp_items(mps@, mps@.len() as int, md));
    }
    v
}

/// A modified period; a missing modifier counts as "this".
fn modified_period(s: &[u8], i: usize) -> (v: Vec<(usize, PeriodAst)>)
    ensures
        v@ == spec_modified_period(s@, i as int),
{
    proof {
        reveal(spec_modified_period);
    }
    let mut v: Vec<(usize, PeriodAst)> = Vec::new();
    match modifier(s, i) {
        Some((j, md)) => {
            let mut part = modp_items(s, skip_ws(s, j), md);
            v.append(&mut part);
        },
        None => {},
    }
    let mut bare = modp_items(s, i, ModAst::This);
    v.append(&mut bare);
    v
}

/// The year readings that close a month-and-year phrase
/// (specification).
pub open spec fn spec_my_years(ys: Seq<(usize, YearAst)>, k: int, mo: u8) -> Seq<
    (usize, PeriodAst),
>
    decreases ys.len() - k,
{
    if !(0 <= k < ys.len()) {
        Seq::empty()
    } else {
        let (j, y) = ys[k];
        seq![(j, PeriodAst::MonthYear { month: mo, year: y })] + spec_my_years(ys, k + 1, mo)
    }
}

/// The month-and-year readings (specification).
pub open spec fn spec_my_months(s: Seq<u8>, mos: Seq<(usize, u8)>, k: int) -> Seq<
    (usize, PeriodAst),
>
    decreases mos.len() - k,
{
    if !(0 <= k < mos.len()) {
        Seq::empty()
    } else {
        let (j1, mo) = mos[k];
        spec_my_years(spec_year_rule(s, spec_ws_end(s, j1 as int)), 0, mo) + spec_my_months(
            s,
            mos,
            k + 1,
        )
    }
}

/// The bare-year readings as periods (specification).
pub open spec fn spec_sp_years(ys: Seq<(usize, YearAst)>, k: int) -> Seq<(usize, PeriodAst)>
    decreases ys.len() - k,
{
    if !(0 <= k < ys.len()) {
        Seq::empty()
    } else {
        let (j, y) = ys[k];
        seq![(j, PeriodAst::YearOnly(y))] + spec_sp_years(ys, k + 1)
    }
}

/// The relative-period readings (specification): a count, a unit, then
/// "ago" or "from now".
pub open spec fn spec_sp_relative(s: Seq<u8>, cs: Seq<(usize, u32)>, k: int) -> Seq<
    (usize, PeriodAst),
>
    decreases cs.len() - k,
{
    if !(0 <= k < cs.len()) {
        Seq::empty()
    } else {
        let (j, n) = cs[k];
        (match spec_unit(s, spec_ws_end(s, j as int)) {
            None => Seq::empty(),
            Some((j2, u)) => match spec_from_now_or_ago(s, spec_ws_end(s, j2)) {
                None => Seq::empty(),
                Some((j3, ago)) => seq![
                    (j3 as usize, PeriodAst::Relative { count: n, unit: u, ago }),
                ],
            },
        }) + spec_sp_relative(s, cs, k + 1)
    }
}

/// All readings of a period without an anchor at `i` (specification):
/// modified periods, a month of a stated year, a bare year, then a
/// relative period.
#[verifier::opaque]
pub open spec fn spec_specific_period(s: Seq<u8>, i: int) -> Seq<(usize, PeriodAst)> {
    spec_modified_period(s, i) + spec_my_months(s, spec_a_month(s, i), 0) + spec_sp_years(
        spec_year_rule(s, i),
        0,
    ) + spec_sp_relative(s, spec_count(s, i), 0)
}

/// A period expression without an anchor.
fn specific_period(s: &[u8], i: usize) -> (v: Vec<(usize, PeriodAst)>)
    ensures
        v@ == spec_specific_period(s@, i as int),
{
    proof {
        reveal(spec_specific_period);
    }
    let mut v = modified_period(s, i);
    let ghost base1 = v@;
    let mos = a_month(s, i);
    let mut k: usize = 0;
    while k < mos.len()
        invariant
            k <= mos.len(),
            mos@ == spec_a_month(s@, i as int),
            v@ + spec_my_months(s@, mos@, k as int) == base1 + spec_my_months(s@, mos@, 0),
        decreases mos.len() - k,
    {
        let ghost v0 = v@;
        let (j1, mo) = mos[k];
        let ys = year_rule(s, skip_ws(s, j1));
        let ghost p = spec_ws_end(s@, j1 as int);
        let ghost vin = v@;
        let mut k2: usize = 0;
        while k2 < ys.len()
            invariant
                k2 <= ys.len(),
                ys@ == spec_year_rule(s@, p),
                v@ + spec_my_years(ys@, k2 as int, mo) == vin + spec_my_years(ys@, 0, mo),
            decreases ys.len() - k2,
        {
            let ghost v2 = v@;
            let (j2, y) = ys[k2];
            v.push((j2, PeriodAst::MonthYear { month: mo, year: y }));
            proof {
                assert(v@ + spec_my_years(ys@, k2 as int + 1, mo) =~= v2 + spec_my_years(
                    ys@,
                    k2 as int,
                    mo,
                ));
            }
            k2 = k2 + 1;
        }
        proof {
            assert(v@ =~= v@ + spec_my_years(ys@, ys@.len() as int, mo));
            assert(v@ + spec_my_months(s@, mos@, k as int + 1) =~= v0 + spec_my_months(
                s@,
                mos@,
                k as int,
            ));
        }
        k = k + 1;
    }
    proof {
        assert(v@ =~= v@ + spec_my_months(s@, mos@, mos@.len() as int));
    }
    let ghost base2 = v@;
    let ys = year_rule(s, i);
    k = 0;
    while k < ys.len()
        invariant
            k <= ys.len(),
            ys@ == spec_year_rule(s@, i as int),
            v@ + spec_sp_years(ys@, k as int) == base2 + spec_sp_years(ys@, 0),
        decreases ys.len() - k,
    {
        let ghost v0 = v@;
        let (j, y) = ys[k];
        v.push((j, PeriodAst::YearOnly(y)));
        proof {
            assert(v@ + spec_sp_years(ys@, k as int + 1) =~= v0 + spec_sp_years(ys@, k as int));
        }
        k = k + 1;
    }
    proof {
        assert(v@ =~= v@ + spec_sp_years(ys@, ys@.len() as int));
    }
    let ghost base3 = v@;
    let cs = count(s, i);
    k = 0;
    while k < cs.len()
        invariant
            k <= cs.len(),
            cs@ == spec_count(s@, i as int),
            v@ + spec_sp_relative(s@, cs@, k as int) == base3 + spec_sp_relative(s@, cs@, 0),
        decreases cs.len() - k,
    {
        let ghost v0 = v@;
        let (j, n) = cs[k];
        match unit(s, skip_ws(s, j)) {
            Some((j2, u)) => {
                match from_now_or_ago(s, skip_ws(s, j2)) {
                    Some((j3, ago)) => {
                        v.push((j3, PeriodAst::Relative { count: n, unit: u, ago }));
                    },
                    None => {},
                }
            },
            None => {},
        }
        proof {
            assert(v@ + spec_sp_relative(s@, cs@, k as int + 1) =~= v0 + spec_sp_relative(
                s@,
                cs@,
                k as int,
            ));
        }
        k = k + 1;
    }
    proof {
        assert(v@ =~= v@ + spec_sp_relative(s@, cs@, cs@.len() as int));
    }
    v
}

/// The weekday-name readings as bare named periods (specification).
pub open spec fn spec_p_days(ds: Seq<(usize, u8)>, k: int) -> Seq<(usize, PeriodAst)>
    decreases ds.len() - k,
{
    if !(0 <= k < ds.len()) {
        Seq::empty()
    } else {
        let (j, wd) = ds[k];
        seq![(j, PeriodAst::NamedWeekday(wd))] + spec_p_days(ds, k + 1)
    }
}

/// The month-name readings as bare named periods (specification).
pub open spec fn spec_p_months(mos: Seq<(usize, u8)>, k: int) -> Seq<(usize, PeriodAst)>
    decreases mos.len() - k,
{
    if !(0 <= k < mos.len()) {
        Seq::empty()
    } else {
        let (j, mo) = mos[k];
        seq![(j, PeriodAst::NamedMonth(mo))] + spec_p_months(mos, k + 1)
    }
}

/// All readings of a period at `i` (specification): bare weekday and
/// month names, then periods without an anchor.
#[verifier::opaque]
pub open spec fn spec_period(s: Seq<u8>, i: int) -> Seq<(usize, PeriodAst)> {
    spec_p_days(spec_a_day(s, i), 0) + spec_p_months(spec_a_month(s, i), 0)
        + spec_specific_period(s, i)
}

/// A period: a bare weekday or month name, or a specific period.
fn period(s: &[u8], i: usize) -> (v: Vec<(usize, PeriodAst)>)
    ensures
        v@ == spec_period(s@, i as int),
{
    proof {
        reveal(spec_period);
    }
    let mut v: Vec<(usize, PeriodAst)> = Vec::new();
    let ds = a_day(s, i);
    let mut k: usize = 0;
    while k < ds.len()
        invariant
            k <= ds.len(),
            ds@ == spec_a_day(s@, i as int),
            v@ + spec_p_days(ds@, k as int) == spec_p_days(ds@, 0),
        decreases ds.len() - k,
    {
        let ghost v0 = v@;
        let (j, wd) = ds[k];
        v.push((j, PeriodAst::NamedWeekday(wd)));
        proof {
            assert(v@ + spec_p_days(ds@, k as int + 1) =~= v0 + spec_p_days(ds@, k as int));
        }
        k = k + 1;
    }
    proof {
        assert(v@ =~= v@ + spec_p_days(ds@, ds@.len() as int));
    }
    let ghost base1 = v@;
    let mos = a_month(s, i);
    k = 0;
    while k < mos.len()
        invariant
            k <= mos.len(),
            mos@ == spec_a_month(s@, i as int),
            v@ + spec_p_months(mos@, k as int) == base1 + spec_p_months(mos@, 0),
        decreases mos.len() - k,
    {
        let ghost v0 = v@;
        let (j, mo) = mos[k];
        v.push((j, PeriodAst::NamedMonth(mo)));
        proof {
            assert(v@ + spec_p_months(mos@, k as int + 1) =~= v0 + spec_p_months(
                mos@,
                k as int,
            ));
        }
        k = k + 1;
    }
    proof {
        assert(v@ =~= v@ + spec_p_months(mos@, mos@.len() as int));
    }
    let mut sp = specific_period(s, i);
    v.append(&mut sp);
    v
}

/// The moment readings as range sides (specification).
pub open spec fn spec_mop_moments(ms: Seq<(usize, MomentAst)>, k: int) -> Seq<
    (usize, FragmentAst),
>
    decreases ms.len() - k,
{
    if !(0 <= k < ms.len()) {
        Seq::empty()
    } else {
        let (j, m) = ms[k];
        seq![(j, FragmentAst::Moment(m))] + spec_mop_moments(ms, k + 1)
    }
}

/// The period readings as range sides (specification).
pub open spec fn spec_mop_periods(ps: Seq<(usize, PeriodAst)>, k: int) -> Seq<
    (usize, FragmentAst),
>
    decreases ps.len() - k,
{
    if !(0 <= k < ps.len()) {
        Seq::empty()
    } else {
        let (j, p) = ps[k];
        seq![(j, FragmentAst::Period(p))] + spec_mop_periods(ps, k + 1)
    }
}

/// All readings of one side of a range, or a whole one-time
/// expression, at `i` (specification): moments first, then periods.
#[verifier::opaque]
pub open spec fn spec_moment_or_period(s: Seq<u8>, i: int) -> Seq<(usize, FragmentAst)> {
    spec_mop_moments(spec_moment(s, i), 0) + spec_mop_periods(spec_period(s, i), 0)
}

/// One side of a range, or a whole one-time expression.
fn moment_or_period(s: &[u8], i: usize) -> (v: Vec<(usize, FragmentAst)>)
    ensures
        v@ == spec_moment_or_period(s@, i as int),
{
    proof {
        reveal(spec_moment_or_period);
    }
    let mut v: Vec<(usize, FragmentAst)> = Vec::new();
    let ms = moment(s, i);
    let mut k: usize = 0;
    while k < ms.len()
        invariant
            k <= ms.len(),
            ms@ == spec_moment(s@, i as int),
            v@ + spec_mop_moments(ms@, k as int) == spec_mop_moments(ms@, 0),
        decreases ms.len() - k,
    {
        let ghost v0 = v@;
        let (j, m) = ms[k];
        v.push((j, FragmentAst::Moment(m)));
        proof {
            assert(v@ + spec_mop_moments(ms@, k as int + 1) =~= v0 + spec_mop_moments(
                ms@,
                k as int,
            ));
        }
        k = k + 1;
    }
    proof {
        assert(v@ =~= v@ + spec_mop_moments(ms@, ms@.len() as int));
    }
    let ghost base1 = v@;
    let ps = period(s, i);
    k = 0;
    while k < ps.len()
        invariant
            k <= ps.len(),
            ps@ == spec_period(s@, i as int),
            v@ + spec_mop_periods(ps@, k as int) == base1 + spec_mop_periods(ps@, 0),
        decreases ps.len() - k,
    {
        let ghost v0 = v@;
        let (j, p) = ps[k];
        v.push((j, FragmentAst::Period(p)));
        proof {
            assert(v@ + spec_mop_periods(ps@, k as int + 1) =~= v0 + spec_mop_periods(
                ps@,
                k as int,
            ));
        }
        k = k + 1;
    }
    proof {
        assert(v@ =~= v@ + spec_mop_periods(ps@, ps@.len() as int));
    }
    v
}

/// The position after the dash run starting at `i` (specification).
pub open spec fn spec_dash_end(s: Seq<u8>, i: int) -> int
    decreases s.len() - i,
{
    if 0 <= i < s.len() && s[i] == 45 {
        spec_dash_end(s, i + 1)
    } else {
        i
    }
}

/// Where a range preposition is read at `i` (specification): `true`
/// for the inclusive through class, which also covers a run of dashes.
#[verifier::opaque]
pub open spec fn spec_to_prep(s: Seq<u8>, i: int) -> Option<(int, bool)> {
    if spec_word_at(s, i, "up to") is Some {
        Some((spec_word_at(s, i, "up to")->0, false))
    } else if spec_word_at(s, i, "until") is Some {
        Some((spec_word_at(s, i, "until")->0, false))
    } else if spec_word_at(s, i, "till") is Some {
        Some((spec_word_at(s, i, "till")->0, false))
    } else if spec_word_at(s, i, "to") is Some {
        Some((spec_word_at(s, i, "to")->0, false))
    } else if spec_word_at(s, i, "up through") is Some {
        Some((spec_word_at(s, i, "up through")->0, true))
    } else if spec_word_at(s, i, "through") is Some {
        Some((spec_word_at(s, i, "through")->0, true))
    } else if spec_word_at(s, i, "thru") is Some {
        Some((spec_word_at(s, i, "thru")->0, true))
    } else if 0 <= i < s.len() && s[i] == 45 {
        Some((spec_dash_end(s, i + 1), true))
    } else {
        None
    }
}

/// A range preposition: `true` for the inclusive through class, which
/// also covers a run of dashes.
fn to_prep(s: &[u8], i: usize) -> (r: Option<(usize, bool)>)
    ensures
        r is Some <==> spec_to_prep(s@, i as int) is Some,
        r is Some ==> ((r->0).0 as int, (r->0).1) == spec_to_prep(s@, i as int)->0,
{
    proof {
        reveal(spec_to_prep);
    }
    proof {
        reveal(spec_to_prep);
    }
    match word(s, i, "up to") {
        Some(j) => {
            return Some((j, false));
        },
        None => {},
    }
    match word(s, i, "until") {
        Some(j) => {
            return Some((j, false));
        },
        None => {},
    }
    match word(s, i, "till") {
        Some(j) => {
            return Some((j, false));
        },
        None => {},
    }
    match word(s, i, "to") {
        Some(j) => {
            return Some((j, false));
        },
        None => {},
    }
    match word(s, i, "up through") {
        Some(j) => {
            return Some((j, true));
        },
        None => {},
    }
    match word(s, i, "through") {
        Some(j) => {
            return Some((j, true));
        },
        None => {},
    }
    match word(s, i, "thru") {
        Some(j) => {
            return Some((j, true));
        },
        None => {},
    }
    if i < s.len() && s[i] == 45 {
        let mut j = i + 1;
        while j < s.len() && s[j] == 45
            invariant
                i + 1 <= j,
                spec_dash_end(s@, j as int) == spec_dash_end(s@, i as int + 1),
            decreases s.len() - j,
        {
            j = j + 1;
        }
        return Some((j, true));
    }
    None
}

/// Where the "since"/"after" keyword is read at `i` (specification).
#[verifier::opaque]
pub open spec fn spec_since_kw(s: Seq<u8>, i: int) -> Option<int> {
    if spec_word_at(s, i, "since") is Some {
        spec_word_at(s, i, "since")
    } else if spec_word_at(s, i, "after") is Some {
        spec_word_at(s, i, "after")
    } else {
        None
    }
}

/// The "since"/"after" keyword.
fn since_kw(s: &[u8], i: usize) -> (r: Option<usize>)
    ensures
        r is Some <==> spec_since_kw(s@, i as int) is Some,
        r is Some ==> r->0 as int == spec_since_kw(s@, i as int)->0,
{
    proof {
        reveal(spec_since_kw);
    }
    match word(s, i, "since") {
        Some(j) => {
            return Some(j);
        },
        None => {},
    }
    match word(s, i, "after") {
        Some(j) => {
            return Some(j);
        },
        None => {},
    }
    None
}

/// Where "the beginning of", "the start of" or "the end of" is read
/// at `i` (specification); `true` means the beginning.
pub open spec fn spec_clusivity(s: Seq<u8>, i: int) -> Option<(int, bool)> {
    match spec_word_at(s, i, "the") {
        None => None,
        Some(j) => {
            let p = spec_ws_end(s, j);
            let term: Option<(int, bool)> = if spec_word_at(s, p, "beginning") is Some {
                Some((spec_word_at(s, p, "beginning")->0, true))
            } else if spec_word_at(s, p, "start") is Some {
                Some((spec_word_at(s, p, "start")->0, true))
            } else if spec_word_at(s, p, "end") is Some {
                Some((spec_word_at(s, p, "end")->0, false))
            } else {
                None
            };
            match term {
                None => None,
                Some((j2, beg)) => {
                    let p2 = spec_ws_end(s, j2);
                    match crate::lexer::spec_match_word(
                        s,
                        p2,
                        "of".spec_bytes(),
                        true,
                        false,
                        true,
                    ) {
                        Some(j3) => Some((j3, beg)),
                        None => None,
                    }
                },
            }
        },
    }
}

/// "the beginning of" or "the end of"; `true` means the beginning.
fn clusivity(s: &[u8], i: usize) -> (r: Option<(usize, bool)>)
    ensures
        r is Some <==> spec_clusivity(s@, i as int) is Some,
        r is Some ==> ((r->0).0 as int, (r->0).1) == spec_clusivity(s@, i as int)->0,
{
    match word(s, i, "the") {
        Some(j) => {
            let p = skip_ws(s, j);
            let beg: (usize, bool) = match word(s, p, "beginning") {
                Some(j2) => (j2, true),
                None => {
                    match word(s, p, "start") {
                        Some(j2) => (j2, true),
                        None => {
                            match word(s, p, "end") {
                                Some(j2) => (j2, false),
                                None => {
                                    return None;
                                },
                            }
                        },
                    }
                },
            };
            let p2 = skip_ws(s, beg.0);
            match match_word(s, p2, "of", true, false, true) {
                Some(j3) => Some((j3, beg.1)),
                None => None,
            }
        },
        None => None,
    }
}

/// The first one-time reading that covers the whole phrase
/// (specification).
pub open spec fn spec_find_one(s: Seq<u8>, mps: Seq<(usize, FragmentAst)>, k: int) -> Option<
    TimeExpr,
>
    decreases mps.len() - k,
{
    if !(0 <= k < mps.len()) {
        None
    } else {
        let (j, f) = mps[k];
        if spec_ws_end(s, j as int) >= s.len() {
            Some(TimeExpr::One(f))
        } else {
            spec_find_one(s, mps, k + 1)
        }
    }
}

/// The first second side that completes a range reading
/// (specification).
pub open spec fn spec_find_second(
    s: Seq<u8>,
    seconds: Seq<(usize, FragmentAst)>,
    k: int,
    f1: FragmentAst,
    thr: bool,
) -> Option<TimeExpr>
    decreases seconds.len() - k,
{
    if !(0 <= k < seconds.len()) {
        None
    } else {
        let (j3, f2) = seconds[k];
        if spec_ws_end(s, j3 as int) >= s.len() {
            Some(TimeExpr::Range { first: f1, last: f2, through: thr })
        } else {
            spec_find_second(s, seconds, k + 1, f1, thr)
        }
    }
}

/// The first range reading across the first-side readings
/// (specification).
pub open spec fn spec_find_range(s: Seq<u8>, firsts: Seq<(usize, FragmentAst)>, k: int) -> Option<
    TimeExpr,
>
    decreases firsts.len() - k,
{
    if !(0 <= k < firsts.len()) {
        None
    } else {
        let (j1, f1) = firsts[k];
        let attempt = match spec_to_prep(s, spec_ws_end(s, j1 as int)) {
            None => None,
            Some((j2, thr)) => spec_find_second(
                s,
                spec_moment_or_period(s, spec_ws_end(s, j2)),
                0,
                f1,
                thr,
            ),
        };
        if attempt is Some {
            attempt
        } else {
            spec_find_range(s, firsts, k + 1)
        }
    }
}

/// The first-side readings of a range: after an optional "from", then
/// bare (specification).
pub open spec fn spec_firsts(s: Seq<u8>, i0: int) -> Seq<(usize, FragmentAst)> {
    (match spec_word_at(s, i0, "from") {
        Some(jf) => spec_moment_or_period(s, spec_ws_end(s, jf)),
        None => Seq::empty(),
    }) + spec_moment_or_period(s, i0)
}

/// The first whole-phrase reading of a "since" clause's bound
/// (specification).
pub open spec fn spec_find_since(
    s: Seq<u8>,
    fs: Seq<(usize, FragmentAst)>,
    k: int,
    beg: Option<bool>,
) -> Option<TimeExpr>
    decreases fs.len() - k,
{
    if !(0 <= k < fs.len()) {
        None
    } else {
        let (j3, f) = fs[k];
        if spec_ws_end(s, j3 as int) >= s.len() {
            Some(TimeExpr::Since { beginning: beg, frag: f })
        } else {
            spec_find_since(s, fs, k + 1, beg)
        }
    }
}

/// The reading of a whole "since" clause (specification): with an
/// explicit clusivity phrase first, then without.
pub open spec fn spec_since_result(s: Seq<u8>, i0: int) -> Option<TimeExpr> {
    match spec_since_kw(s, i0) {
        None => None,
        Some(j) => {
            let p = spec_ws_end(s, j);
            let with_clus = match spec_clusivity(s, p) {
                None => None,
                Some((j2, beg)) => spec_find_since(
                    s,
                    spec_moment_or_period(s, spec_ws_end(s, j2)),
                    0,
                    Some(beg),
                ),
            };
            if with_clus is Some {
                with_clus
            } else {
                spec_find_since(s, spec_moment_or_period(s, p), 0, None)
            }
        },
    }
}

/// The reading the grammar gives a whole phrase (specification):
/// leading and trailing whitespace allowed, alternatives in the
/// grammar's order — a universal phrase, a single time, a two-sided
/// range, then a "since" clause — and within each, the first reading
/// that covers the phrase.
pub open spec fn spec_parse(s: Seq<u8>) -> Option<TimeExpr> {
    let i0 = spec_ws_end(s, 0);
    if spec_universal_reading(s) {
        Some(TimeExpr::Universal)
    } else {
        let one = spec_find_one(s, spec_moment_or_period(s, i0), 0);
        if one is Some {
            one
        } else {
            let rng = spec_find_range(s, spec_firsts(s, i0), 0);
            if rng is Some {
                rng
            } else {
                spec_since_result(s, i0)
            }
        }
    }
}

/// Recognizes a whole phrase as a time expression, or nothing when the
/// grammar does not cover it.  Alternatives are tried in the grammar's
/// order: a universal phrase, a single time, a two-sided range, then a
/// "since" clause.
pub(crate) fn parse_expression(s: &[u8]) -> (r: Option<TimeExpr>)
    ensures
        r == spec_parse(s@),
{
    let i0 = skip_ws(s, 0);
    match universal(s, i0) {
        Some(j) => {
            if only_ws_left(s, j) {
                return Some(TimeExpr::Universal);
            }
        },
        None => {},
    }
    let mut mps = moment_or_period(s, i0);
    let mut k: usize = 0;
    while k < mps.len()
        invariant
            k <= mps.len(),
            !spec_universal_reading(s@),
            i0 == spec_ws_end(s@, 0),
            mps@ == spec_moment_or_period(s@, i0 as int),
            spec_find_one(s@, mps@, k as int) == spec_find_one(s@, mps@, 0),
        decreases mps.len() - k,
    {
        let (j, f) = mps[k];
        if only_ws_left(s, j) {
            return Some(TimeExpr::One(f));
        }
        k = k + 1;
    }
    let mut firsts: Vec<(usize, FragmentAst)> = Vec::new();
    match word(s, i0, "from") {
        Some(jf) => {
            let mut fs = moment_or_period(s, skip_ws(s, jf));
            firsts.append(&mut fs);
        },
        None => {},
    }
    firsts.append(&mut mps);
    proof {
        assert(firsts@ =~= spec_firsts(s@, i0 as int));
    }
    k = 0;
    while k < firsts.len()
        invariant
            k <= firsts.len(),
            !spec_universal_reading(s@),
            i0 == spec_ws_end(s@, 0),
            firsts@ == spec_firsts(s@, i0 as int),
            spec_find_one(s@, spec_moment_or_period(s@, i0 as int), 0) is None,
            spec_find_range(s@, firsts@, k as int) == spec_find_range(s@, firsts@, 0),
        decreases firsts.len() - k,
    {
        let (j1, f1) = firsts[k];
        let p = skip_ws(s, j1);
        match to_prep(s, p) {
            Some((j2, thr)) => {
                let seconds = moment_or_period(s, skip_ws(s, j2));
                let ghost p2 = spec_ws_end(s@, j2 as int);
                let mut k2: usize = 0;
                while k2 < seconds.len()
                    invariant
                        k2 <= seconds.len(),
                        !spec_universal_reading(s@),
                        i0 == spec_ws_end(s@, 0),
                        firsts@ == spec_firsts(s@, i0 as int),
                        spec_find_one(s@, spec_moment_or_period(s@, i0 as int), 0) is None,
                        spec_find_range(s@, firsts@, k as int) == spec_find_range(
                            s@,
                            firsts@,
                            0,
                        ),
                        k < firsts.len() && firsts@[k as int] == (j1, f1),
                        spec_to_prep(s@, spec_ws_end(s@, j1 as int)) == Some(
                            (j2 as int, thr),
                        ),
                        p2 == spec_ws_end(s@, j2 as int),
                        seconds@ == spec_moment_or_period(s@, p2),
                        spec_find_second(s@, seconds@, k2 as int, f1, thr) == spec_find_second(
                            s@,
                            seconds@,
                            0,
                            f1,
                            thr,
                        ),
                    decreases seconds.len() - k2,
                {
                    let (j3, f2) = seconds[k2];
                    if only_ws_left(s, j3) {
                        return Some(TimeExpr::Range { first: f1, last: f2, through: thr });
                    }
                    k2 = k2 + 1;
                }
            },
            None => {},
        }
        k = k + 1;
    }
    match since_kw(s, i0) {
        Some(j) => {
            let p = skip_ws(s, j);
            match clusivity(s, p) {
                Some((j2, beg)) => {
                    let fs = moment_or_period(s, skip_ws(s, j2));
                    let ghost q = spec_ws_end(s@, j2 as int);
                    let mut k2: usize = 0;
                    while k2 < fs.len()
                        invariant
                            k2 <= fs.len(),
                            !spec_universal_reading(s@),
                            i0 == spec_ws_end(s@, 0),
                            spec_find_one(s@, spec_moment_or_period(s@, i0 as int), 0) is None,
                            spec_find_range(s@, spec_firsts(s@, i0 as int), 0) is None,
                            spec_since_kw(s@, i0 as int) == Some(j as int),
                            spec_clusivity(s@, spec_ws_end(s@, j as int)) == Some(
                                (j2 as int, beg),
                            ),
                            q == spec_ws_end(s@, j2 as int),
                            fs@ == spec_moment_or_period(s@, q),
                            spec_find_since(s@, fs@, k2 as int, Some(beg)) == spec_find_since(
                                s@,
                                fs@,
                                0,
                                Some(beg),
                            ),
                        decreases fs.len() - k2,
                    {
                        let (j3, f) = fs[k2];
                        if only_ws_left(s, j3) {
                            return Some(TimeExpr::Since { beginning: Some(beg), frag: f });
                        }
                        k2 = k2 + 1;
                    }
                },
                None => {},
            }
            let fs = moment_or_period(s, p);
            let mut k2: usize = 0;
            while k2 < fs.len()
                invariant
                    k2 <= fs.len(),
                    !spec_universal_reading(s@),
                    i0 == spec_ws_end(s@, 0),
                    spec_find_one(s@, spec_moment_or_period(s@, i0 as int), 0) is None,
                    spec_find_range(s@, spec_firsts(s@, i0 as int), 0) is None,
                    spec_since_kw(s@, i0 as int) == Some(j as int),
                    p == spec_ws_end(s@, j as int),
                    match spec_clusivity(s@, p as int) {
                        Some((j2b, begb)) => spec_find_since(
                            s@,
                            spec_moment_or_period(s@, spec_ws_end(s@, j2b)),
                            0,
                            Some(begb),
                        ) is None,
                        None => true,
                    },
                    fs@ == spec_moment_or_period(s@, p as int),
                    spec_find_since(s@, fs@, k2 as int, None) == spec_find_since(
                        s@,
                        fs@,
                        0,
                        None,
                    ),
                decreases fs.len() - k2,
            {
                let (j3, f) = fs[k2];
                if only_ws_left(s, j3) {
                    return Some(TimeExpr::Since { beginning: None, frag: f });
                }
                k2 = k2 + 1;
            }
        },
        None => {},
    }
    None
}

} // verus!
