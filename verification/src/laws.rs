//! General properties of the resolution engine, stated and proved once
//! over the model that every executable function is pinned to.

use vstd::prelude::*;

use crate::ast::{FragmentAst, TimeExpr, YearAst};
use crate::calendar::{leap_year, valid_date, MAX_DAY, MAX_YEAR, MIN_DAY, MIN_YEAR};
use crate::config::{Config, Period};
use crate::error::ErrKind;
use crate::instant::{Instant, MS_PER_DAY};
use crate::resolve::{
    expand_model, outcome_of, resolve_model, trunc_mod100, year_model,
};

verus! {

broadcast use crate::instant::lemma_place, crate::instant::lemma_from_total;

/// Universality: a universal phrase resolves to the whole of time, from
/// the first moment to the last, and is not a literal range — whatever
/// the configuration says.
pub proof fn lemma_universal_resolution(c: Config)
    ensures
        resolve_model(TimeExpr::Universal, c) == Ok::<(Instant, Instant, bool), ErrKind>(
            (Instant::place(MIN_DAY as int, 0), Instant::place(MAX_DAY as int, 86399999), false),
        ),
{
}

/// Purity: the resolution of an expression is a function of the
/// expression and the configuration alone.  `resolve` ensures that its
/// result's outcome equals `resolve_model` of the expression and the
/// configuration, so two calls on the same pair yield results with one
/// and the same outcome `m`; by this law they agree in full: same
/// interval, same range flag, same failure kind, and the same message
/// text.
pub proof fn lemma_resolution_pure(
    m: Result<(Instant, Instant, bool), ErrKind>,
    r1: Result<(Instant, Instant, bool), crate::error::TimeError>,
    r2: Result<(Instant, Instant, bool), crate::error::TimeError>,
)
    requires
        outcome_of(r1) == m,
        outcome_of(r2) == m,
        r1 matches Err(e1) ==> crate::error::text_of(e1) == crate::error::message_of(
            crate::error::kind_of(e1),
        ),
        r2 matches Err(e2) ==> crate::error::text_of(e2) == crate::error::message_of(
            crate::error::kind_of(e2),
        ),
    ensures
        outcome_of(r1) == outcome_of(r2),
        r1 is Ok ==> r2 is Ok && r1->Ok_0 == r2->Ok_0,
        (r1 is Err && r2 is Err) ==> crate::error::kind_of(r1->Err_0) == crate::error::kind_of(
            r2->Err_0,
        ) && crate::error::text_of(r1->Err_0) == crate::error::text_of(r2->Err_0),
{
    match r1 {
        Ok(v1) => {
            assert(outcome_of(r1) == Ok::<(Instant, Instant, bool), ErrKind>(v1));
            match r2 {
                Ok(v2) => {
                    assert(Ok::<(Instant, Instant, bool), ErrKind>(v1) == Ok::<
                        (Instant, Instant, bool),
                        ErrKind,
                    >(v2));
                },
                Err(e2) => {
                    assert(m matches Ok(_) && m matches Err(_));
                },
            }
        },
        Err(e1) => {
            match r2 {
                Ok(v2) => {
                    assert(m matches Ok(_) && m matches Err(_));
                },
                Err(e2) => {
                    assert(Err::<(Instant, Instant, bool), ErrKind>(crate::error::kind_of(e1))
                        == Err::<(Instant, Instant, bool), ErrKind>(crate::error::kind_of(e2)));
                },
            }
        },
    }
}

/// Ordering: a range of two specific sides that resolves successfully
/// is reported as a literal range whose start does not come after its
/// end; a misordered pair is rejected with the misordering error.
pub proof fn lemma_range_ordered(first: FragmentAst, last: FragmentAst, through: bool, c: Config)
    requires
        crate::ast::spec_is_specific(first),
        crate::ast::spec_is_specific(last),
    ensures
        match resolve_model(TimeExpr::Range { first, last, through }, c) {
            Ok((d1, d2, lit)) => lit && d1.total() <= d2.total(),
            Err(_) => true,
        },
{
}

/// Ordering of a "since" clause: a successful resolution runs from the
/// chosen bound up to the reference moment, never backwards.
pub proof fn lemma_since_ordered(beginning: Option<bool>, frag: FragmentAst, c: Config)
    ensures
        match resolve_model(TimeExpr::Since { beginning, frag }, c) {
            Ok((d1, d2, lit)) => !lit && d2 == c.spec_now() && d1.total() <= d2.total(),
            Err(_) => true,
        },
{
}

/// Leap day: the 29th of February is a calendar date exactly in the
/// leap years the calendar contains.
pub proof fn lemma_leap_day(y: int)
    ensures
        valid_date(y, 2, 29) <==> (MIN_YEAR as int <= y <= MAX_YEAR as int && leap_year(y)),
{
}

/// Short-year resolution toward the past: with `default_to_past` set,
/// a two-digit year lands in the hundred years ending at the reference
/// year, keeping its last two digits.
pub proof fn lemma_short_year_past(y: u8, c: Config)
    requires
        y < 100,
        crate::calendar::year_of_day(c.spec_now().sday()) >= 0,
        c.spec_default_to_past(),
    ensures
        ({
            let ny = crate::calendar::year_of_day(c.spec_now().sday());
            let r = year_model(YearAst::Short { y }, c);
            ny - 100 < r <= ny && r % 100 == y as int
        }),
{
    let ny = crate::calendar::year_of_day(c.spec_now().sday());
    let r = year_model(YearAst::Short { y }, c);
    let ty = trunc_mod100(ny);
    vstd::arithmetic::div_mod::lemma_fundamental_div_mod(ny, 100);
    if ty < y {
        vstd::arithmetic::div_mod::lemma_fundamental_div_mod_converse_mod(
            r,
            100,
            ny / 100 - 1,
            y as int,
        );
    } else {
        vstd::arithmetic::div_mod::lemma_fundamental_div_mod_converse_mod(
            r,
            100,
            ny / 100,
            y as int,
        );
    }
}

/// Short-year resolution toward the future: without `default_to_past`,
/// a two-digit year lands in the hundred years starting at the
/// reference year, keeping its last two digits.
pub proof fn lemma_short_year_future(y: u8, c: Config)
    requires
        y < 100,
        crate::calendar::year_of_day(c.spec_now().sday()) >= 0,
        !c.spec_default_to_past(),
    ensures
        ({
            let ny = crate::calendar::year_of_day(c.spec_now().sday());
            let r = year_model(YearAst::Short { y }, c);
            ny <= r < ny + 100 && r % 100 == y as int
        }),
{
    let ny = crate::calendar::year_of_day(c.spec_now().sday());
    let r = year_model(YearAst::Short { y }, c);
    let ty = trunc_mod100(ny);
    vstd::arithmetic::div_mod::lemma_fundamental_div_mod(ny, 100);
    if ty > y {
        vstd::arithmetic::div_mod::lemma_fundamental_div_mod_converse_mod(
            r,
            100,
            ny / 100 + 1,
            y as int,
        );
    } else {
        vstd::arithmetic::div_mod::lemma_fundamental_div_mod_converse_mod(
            r,
            100,
            ny / 100,
            y as int,
        );
    }
}


/// Interval well-formedness: widening a calendar instant to any
/// granularity yields an interval whose start does not come after its
/// end.
pub proof fn lemma_expand_interval(t: Instant, p: Period, c: Config)
    requires
        MIN_DAY as int <= t.sday() <= MAX_DAY as int,
        0 <= t.smsec() < 86400000,
    ensures
        match expand_model(t, p, c) {
            Ok((d1, d2)) => d1.total() <= d2.total(),
            Err(_) => true,
        },
{
    let msd = MS_PER_DAY as int;
    match p {
        Period::Year => {
            let y = crate::calendar::year_of_day(t.sday());
            crate::calendar::lemma_year_search_bounds(t.sday(), -262403, 262414);
            crate::calendar::lemma_year_step(y);
            let f1 = crate::calendar::day_of_date(y, 1, 1);
            let f2 = crate::calendar::day_of_date(y + 1, 1, 1);
            assert(f1 * msd <= f2 * msd) by (nonlinear_arith)
                requires
                    f1 <= f2,
                    msd == 86400000,
            ;
            crate::instant::lemma_from_total_monotone(f1 * msd, f2 * msd);
        },
        Period::Month => {
            let y = crate::calendar::year_of_day(t.sday());
            let m = crate::calendar::month_of_day(t.sday());
            crate::calendar::lemma_year_search_bounds(t.sday(), -262403, 262414);
            crate::calendar::lemma_month_scan_bounds(t.sday(), y, 1);
            let f1 = crate::calendar::day_of_date(y, m, 1);
            let f2 = if m == 12 {
                crate::calendar::day_of_date(y + 1, 1, 1)
            } else {
                crate::calendar::day_of_date(y, m + 1, 1)
            };
            if m == 12 {
                crate::calendar::lemma_december_step(y);
            } else {
                crate::calendar::lemma_month_step(y, m);
            }
            assert(f1 * msd <= f2 * msd) by (nonlinear_arith)
                requires
                    f1 <= f2,
                    msd == 86400000,
            ;
            crate::instant::lemma_from_total_monotone(f1 * msd, f2 * msd);
        },
        Period::Week => {
            let wd = crate::calendar::weekday_from_monday(t.sday());
            vstd::arithmetic::div_mod::lemma_mod_bound(t.sday() + 3, 7);
            let off = if c.spec_monday_starts_week() {
                wd
            } else {
                (wd + 1) % 7
            };
            vstd::arithmetic::div_mod::lemma_mod_bound(wd + 1, 7);
            let x = Instant::place(t.sday(), 0).total() + (-off) * msd;
            let d1 = Instant::from_total(x);
            crate::instant::lemma_from_total(x);
            crate::instant::lemma_from_total_monotone(d1.total(), d1.total() + 7 * msd);
        },
        Period::Day => {
            let d1 = Instant::place(t.sday(), 0);
            crate::instant::lemma_from_total(d1.total() + 1 * msd);
        },
        Period::Hour => {
            lemma_truncated_arm(t, 3600000);
        },
        Period::Minute => {
            lemma_truncated_arm(t, 60000);
        },
        Period::Second => {
            lemma_truncated_arm(t, 1000);
        },
        Period::PayPeriod => {
            match c.spec_pay_period_start() {
                None => {},
                Some(pps) => {
                    if c.spec_pay_period_length() == 0 {
                    } else {
                        let ppl = c.spec_pay_period_length() as int;
                        let off = (t.sday() - pps.sday()) % ppl;
                        let x = Instant::place(t.sday(), 0).total() + (-off) * msd;
                        let d1 = Instant::from_total(x);
                        crate::instant::lemma_from_total(x);
                        assert(ppl * msd >= 0) by (nonlinear_arith)
                            requires
                                ppl >= 1,
                                msd == 86400000,
                        ;
                        crate::instant::lemma_from_total_monotone(
                            d1.total(),
                            d1.total() + ppl * msd,
                        );
                    }
                },
            }
        },
    }
}

/// The sub-day arms of `lemma_expand_interval`: truncating the time of
/// day and adding one unit moves forward.
proof fn lemma_truncated_arm(t: Instant, unit: int)
    requires
        MIN_DAY as int <= t.sday() <= MAX_DAY as int,
        0 <= t.smsec() < 86400000,
        0 < unit <= 86400000,
    ensures
        ({
            let d1 = Instant::place(t.sday(), t.smsec() - t.smsec() % unit);
            d1.total() <= Instant::from_total(d1.total() + unit).total()
        }),
{
    vstd::arithmetic::div_mod::lemma_mod_bound(t.smsec(), unit);
    vstd::arithmetic::div_mod::lemma_mod_decreases(t.smsec() as nat, unit as nat);
    let d1 = Instant::place(t.sday(), t.smsec() - t.smsec() % unit);
    assert(t.sday() * (MS_PER_DAY as int) <= MAX_DAY as int * (MS_PER_DAY as int))
        by (nonlinear_arith)
        requires
            t.sday() <= MAX_DAY as int,
            MS_PER_DAY == 86400000i64,
    ;
    assert(t.sday() * (MS_PER_DAY as int) >= MIN_DAY as int * (MS_PER_DAY as int))
        by (nonlinear_arith)
        requires
            t.sday() >= MIN_DAY as int,
            MS_PER_DAY == 86400000i64,
    ;
    crate::instant::lemma_from_total(d1.total() + unit);
}

/// Enclosure: widening a calendar instant to any granularity yields a
/// half-open interval that contains the instant, provided the instant
/// is not the very last moment and the pay period, where one is asked
/// for, has a positive length.
pub proof fn lemma_expand_contains(t: Instant, p: Period, c: Config)
    requires
        MIN_DAY as int <= t.sday() <= MAX_DAY as int,
        0 <= t.smsec() < 86400000,
        t.total() < crate::instant::MAX_TOTAL_MS as int,
    ensures
        match expand_model(t, p, c) {
            Ok((d1, d2)) => d1.total() <= t.total() < d2.total(),
            Err(_) => true,
        },
{
    let msd = MS_PER_DAY as int;
    let maxt = crate::instant::MAX_TOTAL_MS as int;
    let mint = crate::instant::MIN_TOTAL_MS as int;
    assert(mint <= t.total() < maxt) by (nonlinear_arith)
        requires
            MIN_DAY as int <= t.sday() <= MAX_DAY as int,
            0 <= t.smsec() < 86400000,
            t.total() == t.sday() * msd + t.smsec(),
            msd == 86400000,
            mint == MIN_DAY as int * 86400000,
            t.total() < maxt,
    ;
    match p {
        Period::Year => {
            crate::calendar::lemma_year_of_day_sandwich(t.sday());
            let y = crate::calendar::year_of_day(t.sday());
            let f1 = crate::calendar::day_of_date(y, 1, 1);
            let f2 = crate::calendar::day_of_date(y + 1, 1, 1);
            crate::instant::lemma_from_total(f1 * msd);
            crate::instant::lemma_from_total(f2 * msd);
            assert(f1 * msd <= t.total() && t.total() < f2 * msd) by (nonlinear_arith)
                requires
                    f1 <= t.sday() < f2,
                    t.total() == t.sday() * msd + t.smsec(),
                    0 <= t.smsec() < 86400000,
                    msd == 86400000,
            ;
        },
        Period::Month => {
            crate::calendar::lemma_month_of_day_sandwich(t.sday());
            let y = crate::calendar::year_of_day(t.sday());
            let m = crate::calendar::month_of_day(t.sday());
            let f1 = crate::calendar::day_of_date(y, m, 1);
            let f2 = if m == 12 {
                crate::calendar::day_of_date(y + 1, 1, 1)
            } else {
                crate::calendar::day_of_date(y, m + 1, 1)
            };
            crate::instant::lemma_from_total(f1 * msd);
            crate::instant::lemma_from_total(f2 * msd);
            assert(f1 * msd <= t.total() && t.total() < f2 * msd) by (nonlinear_arith)
                requires
                    f1 <= t.sday() < f2,
                    t.total() == t.sday() * msd + t.smsec(),
                    0 <= t.smsec() < 86400000,
                    msd == 86400000,
            ;
        },
        Period::Week => {
            let wd = crate::calendar::weekday_from_monday(t.sday());
            vstd::arithmetic::div_mod::lemma_mod_bound(t.sday() + 3, 7);
            let off = if c.spec_monday_starts_week() {
                wd
            } else {
                (wd + 1) % 7
            };
            vstd::arithmetic::div_mod::lemma_mod_bound(wd + 1, 7);
            let x = Instant::place(t.sday(), 0).total() + (-off) * msd;
            crate::instant::lemma_from_total(x);
            let d1 = Instant::from_total(x);
            crate::instant::lemma_from_total(d1.total() + 7 * msd);
            assert(x <= t.total() && t.total() < x + 7 * msd) by (nonlinear_arith)
                requires
                    x == t.sday() * msd + (-off) * msd,
                    0 <= off <= 6,
                    t.total() == t.sday() * msd + t.smsec(),
                    0 <= t.smsec() < 86400000,
                    msd == 86400000,
            ;
            assert(mint <= t.total() && t.total() < mint + 7 * msd ==> t.sday() < MIN_DAY as int
                + 7) by (nonlinear_arith)
                requires
                    t.total() == t.sday() * msd + t.smsec(),
                    0 <= t.smsec() < 86400000,
                    msd == 86400000,
                    mint == MIN_DAY as int * 86400000,
            ;
        },
        Period::Day => {
            let d1 = Instant::place(t.sday(), 0);
            crate::instant::lemma_from_total(d1.total() + 1 * msd);
        },
        Period::Hour => {
            lemma_contains_truncated_arm(t, 3600000);
        },
        Period::Minute => {
            lemma_contains_truncated_arm(t, 60000);
        },
        Period::Second => {
            lemma_contains_truncated_arm(t, 1000);
        },
        Period::PayPeriod => {
            match c.spec_pay_period_start() {
                None => {},
                Some(_pps) => {
                    if c.spec_pay_period_length() == 0 {
                    } else {
                        let pps = c.spec_pay_period_start()->0;
                        let ppl = c.spec_pay_period_length() as int;
                        let off = (t.sday() - pps.sday()) % ppl;
                        vstd::arithmetic::div_mod::lemma_mod_bound(t.sday() - pps.sday(), ppl);
                        let x = Instant::place(t.sday(), 0).total() + (-off) * msd;
                        crate::instant::lemma_from_total(x);
                        let d1 = Instant::from_total(x);
                        crate::instant::lemma_from_total(d1.total() + ppl * msd);
                        assert(x <= t.total() && t.total() < x + ppl * msd) by (nonlinear_arith)
                            requires
                                x == t.sday() * msd + (-off) * msd,
                                0 <= off < ppl,
                                t.total() == t.sday() * msd + t.smsec(),
                                0 <= t.smsec() < 86400000,
                                msd == 86400000,
                        ;
                        vstd::arithmetic::mul::lemma_mul_nonnegative(ppl, msd);
                        if x < mint {
                            assert(t.total() < mint + ppl * msd);
                        }
                    }
                },
            }
        },
    }
}

/// The sub-day arms of `lemma_expand_contains`: truncating the time of
/// day keeps the instant inside the unit that starts there.
proof fn lemma_contains_truncated_arm(t: Instant, unit: int)
    requires
        MIN_DAY as int <= t.sday() <= MAX_DAY as int,
        0 <= t.smsec() < 86400000,
        t.total() < crate::instant::MAX_TOTAL_MS as int,
        0 < unit <= 86400000,
    ensures
        ({
            let d1 = Instant::place(t.sday(), t.smsec() - t.smsec() % unit);
            d1.total() <= t.total() < Instant::from_total(d1.total() + unit).total()
        }),
{
    vstd::arithmetic::div_mod::lemma_mod_bound(t.smsec(), unit);
    vstd::arithmetic::div_mod::lemma_mod_decreases(t.smsec() as nat, unit as nat);
    let d1 = Instant::place(t.sday(), t.smsec() - t.smsec() % unit);
    crate::instant::lemma_from_total(d1.total() + unit);
}


/// Terminus selection: when a range's final interval starts and ends on
/// one calendar day, its near side is the terminus whatever the
/// preposition class; across different days the through class takes the
/// far side and the to class the near side.
pub proof fn lemma_terminus_selection(d1: Instant, d2: Instant, through: bool)
    ensures
        d1.sday() == d2.sday() ==> crate::resolve::pick_terminus_model(d1, d2, through) == d1,
        d1.sday() != d2.sday() && through ==> crate::resolve::pick_terminus_model(d1, d2, through)
            == d2,
        d1.sday() != d2.sday() && !through ==> crate::resolve::pick_terminus_model(
            d1,
            d2,
            through,
        ) == d1,
{
}


/// The bare-weekday rule: resolved without a clock time against an
/// anchor, a weekday name lands on a full day that bears that weekday,
/// strictly on the required side of the anchor, between one and seven
/// days away — even when the anchor itself falls on that weekday.
pub proof fn lemma_weekday_strictly_aside(wd: u8, c: Config, other: Instant, before: bool)
    requires
        wd < 7,
        MIN_DAY as int + 7 <= other.sday() <= MAX_DAY as int - 7,
        0 <= other.smsec() < 86400000,
    ensures
        match crate::resolve::weekday_near_model(wd, None, c, other, before) {
            Ok((d1, _)) => crate::calendar::weekday_from_monday(d1.sday()) == wd as int && (
            if before {
                1 <= other.sday() - d1.sday() <= 7
            } else {
                1 <= d1.sday() - other.sday() <= 7
            }),
            Err(_) => false,
        },
{
    broadcast use crate::config::lemma_spec_with;

    let msd = MS_PER_DAY as int;
    let a = other.sday() + 3;
    vstd::arithmetic::div_mod::lemma_fundamental_div_mod(a, 7);
    vstd::arithmetic::div_mod::lemma_mod_bound(a, 7);
    let q = a / 7;
    let wd_o = a % 7;
    assert((wd_o + 1) % 7 == if wd_o == 6 {
        0int
    } else {
        wd_o + 1
    }) by {
        if wd_o == 6 {
            vstd::arithmetic::div_mod::lemma_mod_self_0(7);
        } else {
            vstd::arithmetic::div_mod::lemma_small_mod((wd_o + 1) as nat, 7nat);
        }
    };
    assert((wd as int + 1) % 7 == if wd == 6 {
        0int
    } else {
        wd as int + 1
    }) by {
        if wd == 6 {
            vstd::arithmetic::div_mod::lemma_mod_self_0(7);
        } else {
            vstd::arithmetic::div_mod::lemma_small_mod((wd as int + 1) as nat, 7nat);
        }
    };
    let sun_o = (wd_o + 1) % 7;
    let sun_w = (wd as int + 1) % 7;
    let delta = if before {
        let back = sun_o - sun_w;
        if back <= 0 {
            -(back + 7)
        } else {
            -back
        }
    } else {
        let fwd = sun_w - sun_o;
        if fwd <= 0 {
            fwd + 7
        } else {
            fwd
        }
    };
    assert(wd_o + delta - wd == 0 || wd_o + delta - wd == 7 || wd_o + delta - wd == -7);
    let x = other.sday() + delta;
    if wd_o + delta - wd == 0 {
        vstd::arithmetic::div_mod::lemma_fundamental_div_mod_converse_mod(x + 3, 7, q, wd as int);
    } else if wd_o + delta - wd == 7 {
        vstd::arithmetic::div_mod::lemma_fundamental_div_mod_converse_mod(
            x + 3,
            7,
            q + 1,
            wd as int,
        );
    } else {
        vstd::arithmetic::div_mod::lemma_fundamental_div_mod_converse_mod(
            x + 3,
            7,
            q - 1,
            wd as int,
        );
    }
    assert((x + 3) % 7 == wd as int);
    let v = Instant::place(other.sday(), 0).total() + delta * msd;
    assert(v == x * msd) by (nonlinear_arith)
        requires
            v == other.sday() * msd + delta * msd,
            x == other.sday() + delta,
    ;
    assert(crate::instant::MIN_TOTAL_MS as int <= v <= crate::instant::MAX_TOTAL_MS as int)
        by (nonlinear_arith)
        requires
            v == x * msd,
            MIN_DAY as int <= x <= MAX_DAY as int,
            msd == 86400000,
            crate::instant::MIN_TOTAL_MS as int == MIN_DAY as int * 86400000,
            crate::instant::MAX_TOTAL_MS as int == MAX_DAY as int * 86400000 + 86399999,
    ;
    let d = Instant::from_total(v);
    crate::instant::lemma_from_total(v);
    assert(d.sday() == x) by (nonlinear_arith)
        requires
            d.total() == v,
            v == x * msd,
            d.total() == d.sday() * msd + d.smsec(),
            0 <= d.smsec() < msd,
            msd == 86400000,
    ;
}


/// Phrase-level purity: any two results that meet the contract of
/// `parse` for the same phrase and configuration agree — same interval
/// and range flag, or the same failure kind with the same message.
pub proof fn lemma_parse_pure(
    s: Seq<u8>,
    phrase_text: Seq<char>,
    c: Config,
    r1: Result<(Instant, Instant, bool), crate::error::TimeError>,
    r2: Result<(Instant, Instant, bool), crate::error::TimeError>,
)
    requires
        ({
            match crate::grammar::spec_parse(s) {
                Some(e) => outcome_of(r1) == resolve_model(e, c) && (r1 matches Err(e1)
                    ==> crate::error::text_of(e1) == crate::error::message_of(
                    crate::error::kind_of(e1),
                )),
                None => r1 matches Err(e1) && crate::error::kind_of(e1) == ErrKind::Parse
                    && crate::error::text_of(e1) == crate::error::parse_message(phrase_text),
            }
        }),
        ({
            match crate::grammar::spec_parse(s) {
                Some(e) => outcome_of(r2) == resolve_model(e, c) && (r2 matches Err(e2)
                    ==> crate::error::text_of(e2) == crate::error::message_of(
                    crate::error::kind_of(e2),
                )),
                None => r2 matches Err(e2) && crate::error::kind_of(e2) == ErrKind::Parse
                    && crate::error::text_of(e2) == crate::error::parse_message(phrase_text),
            }
        }),
    ensures
        r1 is Ok ==> r2 is Ok && r1->Ok_0 == r2->Ok_0,
        (r1 is Err && r2 is Err) ==> crate::error::kind_of(r1->Err_0) == crate::error::kind_of(
            r2->Err_0,
        ) && crate::error::text_of(r1->Err_0) == crate::error::text_of(r2->Err_0),
{
    match crate::grammar::spec_parse(s) {
        Some(e) => {
            lemma_resolution_pure(resolve_model(e, c), r1, r2);
        },
        None => {},
    }
}

/// Phrase-level ordering: when the grammar reads a phrase as a range
/// of two specific sides, any result meeting the contract of `parse`
/// is a literal range whose start does not come after its end, or the
/// misordering error.
pub proof fn lemma_parse_range_ordered(
    s: Seq<u8>,
    c: Config,
    r: Result<(Instant, Instant, bool), crate::error::TimeError>,
)
    requires
        crate::grammar::spec_parse(s) matches Some(e) && e matches TimeExpr::Range {
            first,
            last,
            through,
        } && crate::ast::spec_is_specific(first) && crate::ast::spec_is_specific(last),
        outcome_of(r) == resolve_model(crate::grammar::spec_parse(s)->0, c),
    ensures
        r matches Ok(v) ==> v.2 && v.0.total() <= v.1.total(),
{
    let e = crate::grammar::spec_parse(s)->0;
    match e {
        TimeExpr::Range { first, last, through } => {
            lemma_range_ordered(first, last, through, c);
        },
        _ => {},
    }
}

/// Phrase-level since-ordering: when the grammar reads a phrase as a
/// "since" clause, any result meeting the contract of `parse` runs
/// from the chosen bound up to the reference moment, never backwards.
pub proof fn lemma_parse_since_ordered(
    s: Seq<u8>,
    c: Config,
    r: Result<(Instant, Instant, bool), crate::error::TimeError>,
)
    requires
        crate::grammar::spec_parse(s) matches Some(e) && e is Since,
        outcome_of(r) == resolve_model(crate::grammar::spec_parse(s)->0, c),
    ensures
        r matches Ok(v) ==> !v.2 && v.1 == c.spec_now() && v.0.total() <= v.1.total(),
{
    let e = crate::grammar::spec_parse(s)->0;
    match e {
        TimeExpr::Since { beginning, frag } => {
            lemma_since_ordered(beginning, frag, c);
        },
        _ => {},
    }
}

/// Pay-period tiling: away from the edges of the calendar, widening an
/// instant to its pay period gives a span of exactly the configured
/// length that contains the instant and starts a whole number of
/// periods away from the configured reference start.
pub proof fn lemma_pay_period_tiling(t: Instant, c: Config)
    requires
        c.spec_pay_period_start() is Some,
        c.spec_pay_period_length() >= 1,
        MIN_DAY as int + c.spec_pay_period_length() <= t.sday(),
        t.sday() <= MAX_DAY as int - c.spec_pay_period_length(),
        0 <= t.smsec() < 86400000,
        MIN_DAY as int <= c.spec_pay_period_start()->0.sday() <= MAX_DAY as int,
    ensures
        match expand_model(t, Period::PayPeriod, c) {
            Ok((d1, d2)) => {
                let pps = c.spec_pay_period_start()->0;
                let ppl = c.spec_pay_period_length() as int;
                &&& (d1.sday() - pps.sday()) % ppl == 0
                &&& d1.total() <= t.total() < d2.total()
                &&& d2.total() - d1.total() == ppl * (MS_PER_DAY as int)
            },
            Err(_) => false,
        },
{
    let pps = c.spec_pay_period_start()->0;
    let ppl = c.spec_pay_period_length() as int;
    let diff = t.sday() - pps.sday();
    let off = diff % ppl;
    vstd::arithmetic::div_mod::lemma_mod_bound(diff, ppl);
    vstd::arithmetic::div_mod::lemma_fundamental_div_mod(diff, ppl);
    let start = t.sday() - off;
    assert(Instant::place(t.sday(), 0).total() == t.sday() * (MS_PER_DAY as int));
    assert((-off) * (MS_PER_DAY as int) == -(off * (MS_PER_DAY as int))) by (nonlinear_arith);
    assert(t.sday() * (MS_PER_DAY as int) + (-off) * (MS_PER_DAY as int) == start * (
    MS_PER_DAY as int)) by (nonlinear_arith)
        requires
            start == t.sday() - off,
    ;
    assert(MIN_DAY as int <= start <= MAX_DAY as int);
    assert((crate::instant::MIN_TOTAL_MS as int) <= start * 86400000 <= MAX_DAY as int * 86400000) by (nonlinear_arith)
        requires
            MIN_DAY as int <= start <= MAX_DAY as int,
            (crate::instant::MIN_TOTAL_MS as int) == MIN_DAY as int * 86400000,
    ;
    let d1 = Instant::from_total(start * (MS_PER_DAY as int));
    crate::instant::lemma_from_total(start * (MS_PER_DAY as int));
    vstd::arithmetic::div_mod::lemma_fundamental_div_mod_converse_div(
        start * (MS_PER_DAY as int),
        MS_PER_DAY as int,
        start,
        0,
    );
    assert((MS_PER_DAY as int) * start == start * (MS_PER_DAY as int)) by (nonlinear_arith);
    assert(d1.sday() == start);
    // alignment: start - pps.sday() is a whole number of periods
    assert(start - pps.sday() == ppl * (diff / ppl));
    vstd::arithmetic::div_mod::lemma_mod_multiples_basic(diff / ppl, ppl);
    // the span contains t
    assert(off * (MS_PER_DAY as int) >= 0) by (nonlinear_arith)
        requires
            off >= 0,
    ;
    let endt = d1.total() + ppl * (MS_PER_DAY as int);
    assert(t.total() < endt) by (nonlinear_arith)
        requires
            endt == (t.sday() - off) * (MS_PER_DAY as int) + ppl * (MS_PER_DAY as int),
            t.total() == t.sday() * (MS_PER_DAY as int) + t.smsec(),
            t.smsec() < 86400000,
            MS_PER_DAY as int == 86400000,
            off < ppl,
    ;
    assert((crate::instant::MIN_TOTAL_MS as int) <= endt <= MAX_DAY as int * 86400000 + 86400000) by (nonlinear_arith)
        requires
            endt == start * 86400000 + ppl * 86400000,
            MIN_DAY as int <= start <= MAX_DAY as int - ppl,
            1 <= ppl,
            (crate::instant::MIN_TOTAL_MS as int) == MIN_DAY as int * 86400000,
    ;
    crate::instant::lemma_from_total(endt);
}

} // verus!
