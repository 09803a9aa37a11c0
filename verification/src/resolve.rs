//! The semantic resolution engine: turns a recognized time expression and
//! a configuration into a half-open instant interval.
//!
//! Every executable function here is pinned to a specification twin, so
//! the whole resolution is a pure function of the expression and the
//! configuration.

use vstd::prelude::*;

use crate::ast::{
    AdjustAst, AdverbDay, DateAst, DirAst, FragmentAst, ModAst, ModPeriodAst, MomentAst,
    OrdDay, PeriodAst, PointAst, RelativeDayAst, RomanDay, SomeDayAst, SpecTimeAst, TimeAst,
    TimeExpr, UnitAst, YearAst,
};
use crate::calendar::{day_of_date, month_of_day, valid_date, weekday_from_monday, year_of_day};
use crate::config::{Config, Period};
use crate::error::ErrKind;
use crate::instant::{first_moment, last_moment, Instant, MS_PER_DAY};

verus! {

broadcast use
    crate::config::lemma_spec_with,
    crate::config::lemma_spec_with_monday,
    crate::config::lemma_fresh_config,
    crate::instant::lemma_place,
    crate::instant::lemma_from_total,
;

/// A resolved interval, or the kind of failure.
pub type Span = Result<(Instant, Instant), ErrKind>;

/// Milliseconds in one unit.
pub open spec fn unit_ms(u: UnitAst) -> int {
    match u {
        UnitAst::Week => 604800000,
        UnitAst::Day => 86400000,
        UnitAst::Hour => 3600000,
        UnitAst::Minute => 60000,
        UnitAst::Second => 1000,
    }
}

fn unit_ms_x(u: UnitAst) -> (r: i64)
    ensures
        r == unit_ms(u),
{
    match u {
        UnitAst::Week => 604800000,
        UnitAst::Day => 86400000,
        UnitAst::Hour => 3600000,
        UnitAst::Minute => 60000,
        UnitAst::Second => 1000,
    }
}

/// The calendar granularity matching a duration unit.
pub open spec fn unit_period(u: UnitAst) -> Period {
    match u {
        UnitAst::Week => Period::Week,
        UnitAst::Day => Period::Day,
        UnitAst::Hour => Period::Hour,
        UnitAst::Minute => Period::Minute,
        UnitAst::Second => Period::Second,
    }
}

fn unit_period_x(u: UnitAst) -> (r: Period)
    ensures
        r == unit_period(u),
{
    match u {
        UnitAst::Week => Period::Week,
        UnitAst::Day => Period::Day,
        UnitAst::Hour => Period::Hour,
        UnitAst::Minute => Period::Minute,
        UnitAst::Second => Period::Second,
    }
}

/// Truncating remainder of `a` by 100, as the `%` of the machine.
pub open spec fn trunc_mod100(a: int) -> int {
    if a >= 0 {
        a % 100
    } else {
        -((-a) % 100)
    }
}

fn trunc_mod100_x(a: i64) -> (r: i64)
    requires
        -1000000 <= a <= 1000000,
    ensures
        r == trunc_mod100(a as int),
{
    if a >= 0 {
        ((a as u64) % 100) as i64
    } else {
        -((((-a) as u64) % 100) as i64)
    }
}

/// Euclidean remainder of `a` by `m`: the offset of `a` above the
/// largest multiple of `m` not exceeding it.
fn euclid_mod(a: i64, m: u32) -> (r: u32)
    requires
        -400000000 <= a <= 400000000,
        1 <= m,
    ensures
        r as int == (a as int) % (m as int),
        r < m,
{
    if a >= 0 {
        proof {
            vstd::arithmetic::div_mod::lemma_mod_bound(a as int, m as int);
        }
        ((a as u64) % (m as u64)) as u32
    } else {
        let nd: u64 = (-a) as u64;
        let mm: u64 = nd % (m as u64);
        if mm == 0 {
            proof {
                let q0 = (nd as int) / (m as int);
                vstd::arithmetic::div_mod::lemma_fundamental_div_mod(nd as int, m as int);
                assert((m as int) * (-q0) == -((m as int) * q0)) by (nonlinear_arith);
                vstd::arithmetic::div_mod::lemma_fundamental_div_mod_converse_mod(
                    a as int,
                    m as int,
                    -q0,
                    0,
                );
            }
            0
        } else {
            proof {
                let q0 = (nd as int) / (m as int);
                vstd::arithmetic::div_mod::lemma_fundamental_div_mod(nd as int, m as int);
                assert((m as int) * (-q0 - 1) == -((m as int) * q0) - (m as int))
                    by (nonlinear_arith);
                vstd::arithmetic::div_mod::lemma_fundamental_div_mod_converse_mod(
                    a as int,
                    m as int,
                    -q0 - 1,
                    (m as int) - (mm as int),
                );
            }
            m - (mm as u32)
        }
    }
}

/// The hour, minute, second and midnight flag of a clock reading.  A
/// 12-hour reading grows by twelve under a PM suffix; hour 24 is hour
/// zero; "midnight" sets the flag because it names the start of the
/// following day.
pub open spec fn clock_model(t: TimeAst) -> (int, int, int, bool) {
    match t {
        TimeAst::Named { noon } => if noon {
            (12int, 0int, 0int, false)
        } else {
            (0int, 0int, 0int, true)
        },
        TimeAst::Hour12 { hour, minute, second, pm } => {
            let h1 = if pm == Some(true) {
                hour + 12
            } else {
                hour as int
            };
            let h2 = if h1 == 24 {
                0
            } else {
                h1 % 24
            };
            let (mi, se) = match minute {
                None => (0int, 0int),
                Some(mv) => (
                    mv as int % 60,
                    match second {
                        None => 0int,
                        Some(sv) => sv as int % 60,
                    },
                ),
            };
            (h2, mi, se, false)
        },
        TimeAst::Hour24 { hour, minute, second } => {
            let h2 = if hour == 24 {
                0
            } else {
                hour as int % 24
            };
            let (mi, se) = match minute {
                None => (0int, 0int),
                Some(mv) => (
                    mv as int % 60,
                    match second {
                        None => 0int,
                        Some(sv) => sv as int % 60,
                    },
                ),
            };
            (h2, mi, se, false)
        },
    }
}

fn clock_of(t: &TimeAst) -> (r: (u32, u32, u32, bool))
    ensures
        (r.0 as int, r.1 as int, r.2 as int, r.3) == clock_model(*t),
        r.0 < 24 && r.1 < 60 && r.2 < 60,
{
    match t {
        TimeAst::Named { noon } => if *noon {
            (12, 0, 0, false)
        } else {
            (0, 0, 0, true)
        },
        TimeAst::Hour12 { hour, minute, second, pm } => {
            let h1: u32 = if *pm == Some(true) {
                (*hour as u32) + 12
            } else {
                *hour as u32
            };
            let h2: u32 = if h1 == 24 {
                0
            } else {
                h1 % 24
            };
            let (mi, se): (u32, u32) = match minute {
                None => (0, 0),
                Some(mv) => (
                    (*mv as u32) % 60,
                    match second {
                        None => 0,
                        Some(sv) => (*sv as u32) % 60,
                    },
                ),
            };
            (h2, mi, se, false)
        },
        TimeAst::Hour24 { hour, minute, second } => {
            let h2: u32 = if *hour == 24 {
                0
            } else {
                (*hour as u32) % 24
            };
            let (mi, se): (u32, u32) = match minute {
                None => (0, 0),
                Some(mv) => (
                    (*mv as u32) % 60,
                    match second {
                        None => 0,
                        Some(sv) => (*sv as u32) % 60,
                    },
                ),
            };
            (h2, mi, se, false)
        },
    }
}

/// A clock reading as milliseconds past midnight, with the midnight flag.
pub open spec fn time_ms_model(t: TimeAst) -> (int, bool) {
    let (h, mi, se, mid) = clock_model(t);
    (h * 3600000 + mi * 60000 + se * 1000, mid)
}

fn time_ms(t: &TimeAst) -> (r: (u32, bool))
    ensures
        (r.0 as int, r.1) == time_ms_model(*t),
        r.0 < 86400000,
{
    let (h, mi, se, mid) = clock_of(t);
    (h * 3600000 + mi * 60000 + se * 1000, mid)
}

/// Widens an instant to the period of the given granularity that contains
/// it.  A week starts on the configured first weekday; a pay period is a
/// fixed-length tile of the timeline anchored at the configured start.
pub open spec fn expand_model(t: Instant, p: Period, c: Config) -> Span {
    match p {
        Period::Year => {
            let y = year_of_day(t.sday());
            Ok(
                (
                    Instant::from_total(day_of_date(y, 1, 1) * (MS_PER_DAY as int)),
                    Instant::from_total(day_of_date(y + 1, 1, 1) * (MS_PER_DAY as int)),
                ),
            )
        },
        Period::Month => {
            let y = year_of_day(t.sday());
            let m = month_of_day(t.sday());
            let d2 = if m == 12 {
                day_of_date(y + 1, 1, 1)
            } else {
                day_of_date(y, m + 1, 1)
            };
            Ok(
                (
                    Instant::from_total(day_of_date(y, m, 1) * (MS_PER_DAY as int)),
                    Instant::from_total(d2 * (MS_PER_DAY as int)),
                ),
            )
        },
        Period::Week => {
            let wd = weekday_from_monday(t.sday());
            let off = if c.spec_monday_starts_week() {
                wd
            } else {
                (wd + 1) % 7
            };
            let d1 = Instant::from_total(
                Instant::place(t.sday(), 0).total() + (-off) * (MS_PER_DAY as int),
            );
            Ok((d1, Instant::from_total(d1.total() + 7 * (MS_PER_DAY as int))))
        },
        Period::Day => {
            let d1 = Instant::place(t.sday(), 0);
            Ok((d1, Instant::from_total(d1.total() + 1 * (MS_PER_DAY as int))))
        },
        Period::Hour => {
            let d1 = Instant::place(t.sday(), t.smsec() - t.smsec() % 3600000);
            Ok((d1, Instant::from_total(d1.total() + 3600000)))
        },
        Period::Minute => {
            let d1 = Instant::place(t.sday(), t.smsec() - t.smsec() % 60000);
            Ok((d1, Instant::from_total(d1.total() + 60000)))
        },
        Period::Second => {
            let d1 = Instant::place(t.sday(), t.smsec() - t.smsec() % 1000);
            Ok((d1, Instant::from_total(d1.total() + 1000)))
        },
        Period::PayPeriod => {
            match c.spec_pay_period_start() {
                None => Err(ErrKind::NoPayPeriod),
                Some(pps) => {
                    if c.spec_pay_period_length() == 0 {
                        Err(ErrKind::NoPayPeriod)
                    } else {
                        let off = (t.sday() - pps.sday()) % (c.spec_pay_period_length() as int);
                        let d1 = Instant::from_total(
                            Instant::place(t.sday(), 0).total() + (-off) * (MS_PER_DAY as int),
                        );
                        Ok(
                            (
                                d1,
                                Instant::from_total(
                                    d1.total() + (c.spec_pay_period_length() as int) * (
                                    MS_PER_DAY as int),
                                ),
                            ),
                        )
                    }
                },
            }
        },
    }
}

/// Widens `t` to its enclosing period of granularity `p`.
pub(crate) fn expand(t: Instant, p: Period, c: &Config) -> (r: Span)
    ensures
        r == expand_model(t, p, *c),
{
    match p {
        Period::Year => {
            let (y, _m) = t.year_month();
            let d1 = Instant::from_day_clamped(crate::calendar::date_to_day(y, 1, 1));
            let d2 = Instant::from_day_clamped(crate::calendar::date_to_day(y + 1, 1, 1));
            Ok((d1, d2))
        },
        Period::Month => {
            let (y, m) = t.year_month();
            let d1 = Instant::from_day_clamped(crate::calendar::date_to_day(y, m, 1));
            let d2 = if m == 12 {
                Instant::from_day_clamped(crate::calendar::date_to_day(y + 1, 1, 1))
            } else {
                Instant::from_day_clamped(crate::calendar::date_to_day(y, m + 1, 1))
            };
            Ok((d1, d2))
        },
        Period::Week => {
            let wd = t.weekday_monday();
            let off: u8 = if c.get_monday_starts_week() {
                wd
            } else {
                (wd + 1) % 7
            };
            let d1 = t.start_of_day().add_days(-(off as i64));
            Ok((d1, d1.add_days(7)))
        },
        Period::Day => {
            let d1 = t.start_of_day();
            Ok((d1, d1.add_days(1)))
        },
        Period::Hour => {
            let d1 = t.truncate_to(3600000);
            Ok((d1, d1.add_milliseconds(3600000)))
        },
        Period::Minute => {
            let d1 = t.truncate_to(60000);
            Ok((d1, d1.add_milliseconds(60000)))
        },
        Period::Second => {
            let d1 = t.truncate_to(1000);
            Ok((d1, d1.add_milliseconds(1000)))
        },
        Period::PayPeriod => {
            match c.get_pay_period_start() {
                None => Err(ErrKind::NoPayPeriod),
                Some(pps) => {
                    if c.get_pay_period_length() == 0 {
                        Err(ErrKind::NoPayPeriod)
                    } else {
                        let ppl = c.get_pay_period_length();
                        let diff = t.day_number() - pps.day_number();
                        let off = euclid_mod(diff, ppl);
                        let d1 = t.start_of_day().add_days(-(off as i64));
                        let d2 = d1.add_days(ppl as i64);
                        Ok((d1, d2))
                    }
                },
            }
        },
    }
}

/// Attaches an optional clock time to the configured reference moment:
/// with a time, the moment of that reading (the next day for "midnight"),
/// widened to a second; without one, the reference moment widened to the
/// configured granularity.
pub open spec fn moment_and_time_model(c: Config, time: Option<TimeAst>) -> Span {
    match time {
        Some(t) => {
            let (ms, mid) = time_ms_model(t);
            let m0 = Instant::place(c.spec_now().sday(), ms);
            let m = if mid {
                Instant::from_total(m0.total() + 1 * (MS_PER_DAY as int))
            } else {
                m0
            };
            expand_model(m, Period::Second, c)
        },
        None => expand_model(c.spec_now(), c.spec_period(), c),
    }
}

fn moment_and_time(c: &Config, time: Option<TimeAst>) -> (r: Span)
    ensures
        r == moment_and_time_model(*c, time),
{
    match time {
        Some(t) => {
            let (ms, mid) = time_ms(&t);
            let m0 = c.get_now().with_msec(ms);
            let m = if mid {
                m0.add_days(1)
            } else {
                m0
            };
            expand(m, Period::Second, c)
        },
        None => expand(c.get_now(), c.get_period(), c),
    }
}

/// The year a written year denotes.  A short year is widened to the
/// century that puts it in the past (or the future, by configuration)
/// relative to the reference moment; an era suffix counts years away
/// from year one.
pub open spec fn year_model(y: YearAst, c: Config) -> int {
    match y {
        YearAst::Short { y } => {
            let ny = year_of_day(c.spec_now().sday());
            let ty = trunc_mod100(ny);
            if c.spec_default_to_past() {
                if ty < y {
                    ny - ty - 100 + y
                } else {
                    ny - ty + y
                }
            } else {
                if ty > y {
                    ny - ty + 100 + y
                } else {
                    ny - ty + y
                }
            }
        },
        YearAst::Plain { y, negative } => if negative {
            -(y as int)
        } else {
            y as int
        },
        YearAst::Suffixed { y, bce } => if bce {
            1 - y as int
        } else {
            y as int
        },
    }
}

fn year_num(y: &YearAst, c: &Config) -> (r: i64)
    ensures
        r == year_model(*y, *c),
{
    match y {
        YearAst::Short { y } => {
            let (ny, _m) = c.get_now().year_month();
            let ty = trunc_mod100_x(ny);
            let yv = *y as i64;
            if c.get_default_to_past() {
                if ty < yv {
                    ny - ty - 100 + yv
                } else {
                    ny - ty + yv
                }
            } else {
                if ty > yv {
                    ny - ty + 100 + yv
                } else {
                    ny - ty + yv
                }
            }
        },
        YearAst::Plain { y, negative } => if *negative {
            -(*y as i64)
        } else {
            *y as i64
        },
        YearAst::Suffixed { y, bce } => if *bce {
            1 - (*y as i64)
        } else {
            *y as i64
        },
    }
}

/// The day of the month an ordinal names; kalends, nones and ides depend
/// on the month.
pub open spec fn o_day_model(d: OrdDay, month: int) -> int {
    match d {
        OrdDay::Num(n) => n as int,
        OrdDay::Roman(r) => match r {
            RomanDay::Kalends => 1,
            RomanDay::Nones => if month == 3 || month == 5 || month == 7 || month == 10 {
                7
            } else {
                5
            },
            RomanDay::Ides => if month == 3 || month == 5 || month == 7 || month == 10 {
                15
            } else {
                13
            },
        },
    }
}

fn o_day_num(d: &OrdDay, month: u8) -> (r: u8)
    ensures
        r == o_day_model(*d, month as int),
{
    match d {
        OrdDay::Num(n) => *n,
        OrdDay::Roman(r) => match r {
            RomanDay::Kalends => 1,
            RomanDay::Nones => if month == 3 || month == 5 || month == 7 || month == 10 {
                7
            } else {
                5
            },
            RomanDay::Ides => if month == 3 || month == 5 || month == 7 || month == 10 {
                15
            } else {
                13
            },
        },
    }
}

/// The midnight of a numeric date, or `ImpossibleDate` when the triple is
/// not on the calendar.
pub open spec fn n_date_model(year: YearAst, month: int, day: int, c: Config) -> Result<
    Instant,
    ErrKind,
> {
    let y = year_model(year, c);
    if valid_date(y, month, day) {
        Ok(Instant::place(day_of_date(y, month, day), 0))
    } else {
        Err(ErrKind::ImpossibleDate)
    }
}

fn n_date(year: &YearAst, month: u8, day: u8, c: &Config) -> (r: Result<Instant, ErrKind>)
    ensures
        r == n_date_model(*year, month as int, day as int, *c),
{
    let y = year_num(year, c);
    match Instant::from_ymd(y, month, day) {
        Some(d) => Ok(d),
        None => Err(ErrKind::ImpossibleDate),
    }
}

/// The interval of month `mn` of year `y`: from its first day to the
/// first day of the following month.
pub open spec fn month_span_model(y: int, mn: int) -> (Instant, Instant) {
    let d2 = if mn == 12 {
        day_of_date(y + 1, 1, 1)
    } else {
        day_of_date(y, mn + 1, 1)
    };
    (
        Instant::from_total(day_of_date(y, mn, 1) * (MS_PER_DAY as int)),
        Instant::from_total(d2 * (MS_PER_DAY as int)),
    )
}

fn month_span(y: i64, mn: u8) -> (r: (Instant, Instant))
    requires
        -262500 <= y <= 262500,
        1 <= mn <= 12,
    ensures
        r == month_span_model(y as int, mn as int),
{
    proof {
        crate::calendar::lemma_day_coarse_bounds(y as int, mn as int, 1);
        if mn == 12 {
            crate::calendar::lemma_day_coarse_bounds(y as int + 1, 1, 1);
        } else {
            crate::calendar::lemma_day_coarse_bounds(y as int, mn as int + 1, 1);
        }
    }
    let d1 = Instant::from_day_clamped(crate::calendar::date_to_day(y, mn, 1));
    let d2 = if mn == 12 {
        Instant::from_day_clamped(crate::calendar::date_to_day(y + 1, 1, 1))
    } else {
        Instant::from_day_clamped(crate::calendar::date_to_day(y, mn + 1, 1))
    };
    (d1, d2)
}

/// The interval of year `y`: from its first day to the first day of the
/// following year.
pub open spec fn year_span_model(y: int) -> (Instant, Instant) {
    (
        Instant::from_total(day_of_date(y, 1, 1) * (MS_PER_DAY as int)),
        Instant::from_total(day_of_date(y + 1, 1, 1) * (MS_PER_DAY as int)),
    )
}

fn year_span(y: i64) -> (r: (Instant, Instant))
    requires
        -262500 <= y <= 262500,
    ensures
        r == year_span_model(y as int),
{
    proof {
        crate::calendar::lemma_day_coarse_bounds(y as int, 1, 1);
        crate::calendar::lemma_day_coarse_bounds(y as int + 1, 1, 1);
    }
    let d1 = Instant::from_day_clamped(crate::calendar::date_to_day(y, 1, 1));
    let d2 = Instant::from_day_clamped(crate::calendar::date_to_day(y + 1, 1, 1));
    (d1, d2)
}

/// The duration of `count` units, in milliseconds.
fn count_ms(count: u32, u: UnitAst) -> (r: i128)
    ensures
        r == count * unit_ms(u),
        0 <= r <= 0x24000000000000000,
{
    let ums = unit_ms_x(u);
    proof {
        vstd::arithmetic::mul::lemma_mul_nonnegative(count as int, ums as int);
        vstd::arithmetic::mul::lemma_mul_upper_bound(
            count as int,
            4294967295int,
            ums as int,
            604800000int,
        );
    }
    (count as i128) * (ums as i128)
}

/// Resolution of a moment whose day is an adverb or an explicit date.
/// Two clock readings at once are rejected; "now" widens the reference
/// moment, the other adverbs move it a day and widen to the day; a date
/// is validated against the calendar and any stated weekday.
pub open spec fn specific_day_model(m: MomentAst, c: Config) -> Span {
    match m.point {
        PointAst::DayPoint { time_on, day, time_at } => {
            if time_on is Some && time_at is Some {
                Err(ErrKind::Parse)
            } else {
                let time = if time_on is Some {
                    time_on
                } else {
                    time_at
                };
                match day {
                    SomeDayAst::Adverb(a) => match a {
                        AdverbDay::Now => moment_and_time_model(c, time),
                        AdverbDay::Today => moment_and_time_model(
                            c.spec_with(c.spec_now(), Period::Day),
                            time,
                        ),
                        AdverbDay::Tomorrow => moment_and_time_model(
                            Config::fresh_config(
                                Instant::from_total(
                                    c.spec_now().total() + 1 * (MS_PER_DAY as int),
                                ),
                                Period::Day,
                            ),
                            time,
                        ),
                        AdverbDay::Yesterday => moment_and_time_model(
                            Config::fresh_config(
                                Instant::from_total(
                                    c.spec_now().total() + (-1) * (MS_PER_DAY as int),
                                ),
                                Period::Day,
                            ),
                            time,
                        ),
                    },
                    SomeDayAst::Date(d) => match d {
                        DateAst::Numeric { year, month, day } => {
                            match n_date_model(year, month as int, day as int, c) {
                                Err(k) => Err(k),
                                Ok(d1) => moment_and_time_model(
                                    Config::fresh_config(d1, Period::Day),
                                    time,
                                ),
                            }
                        },
                        DateAst::Alpha { weekday, month, day, year } => {
                            let y = year_model(year, c);
                            let dn = o_day_model(day, month as int);
                            if !valid_date(y, month as int, dn) {
                                Err(ErrKind::ImpossibleDate)
                            } else {
                                let d1 = Instant::place(day_of_date(y, month as int, dn), 0);
                                match weekday {
                                    Some(wd) => if wd as int == weekday_from_monday(d1.sday()) {
                                        moment_and_time_model(
                                            Config::fresh_config(d1, Period::Day),
                                            time,
                                        )
                                    } else {
                                        Err(ErrKind::Weekday)
                                    },
                                    None => moment_and_time_model(
                                        Config::fresh_config(d1, Period::Day),
                                        time,
                                    ),
                                }
                            }
                        },
                    },
                    SomeDayAst::Relative(_) => Err(ErrKind::Parse),
                }
            }
        },
        _ => Err(ErrKind::Parse),
    }
}

fn handle_specific_day(m: &MomentAst, c: &Config) -> (r: Span)
    ensures
        r == specific_day_model(*m, *c),
{
    match &m.point {
        PointAst::DayPoint { time_on, day, time_at } => {
            if time_on.is_some() && time_at.is_some() {
                return Err(ErrKind::Parse);
            }
            let time: Option<TimeAst> = if time_on.is_some() {
                *time_on
            } else {
                *time_at
            };
            match day {
                SomeDayAst::Adverb(a) => match a {
                    AdverbDay::Now => moment_and_time(c, time),
                    AdverbDay::Today => {
                        let c2 = c.reconfig(c.get_now(), Period::Day);
                        moment_and_time(&c2, time)
                    },
                    AdverbDay::Tomorrow => {
                        let c2 = Config::fresh_with(c.get_now().add_days(1), Period::Day);
                        moment_and_time(&c2, time)
                    },
                    AdverbDay::Yesterday => {
                        let c2 = Config::fresh_with(c.get_now().add_days(-1), Period::Day);
                        moment_and_time(&c2, time)
                    },
                },
                SomeDayAst::Date(d) => match d {
                    DateAst::Numeric { year, month, day } => {
                        match n_date(year, *month, *day, c) {
                            Err(k) => Err(k),
                            Ok(d1) => {
                                let c2 = Config::fresh_with(d1, Period::Day);
                                moment_and_time(&c2, time)
                            },
                        }
                    },
                    DateAst::Alpha { weekday, month, day, year } => {
                        let y = year_num(year, c);
                        let dn = o_day_num(day, *month);
                        match Instant::from_ymd(y, *month, dn) {
                            None => Err(ErrKind::ImpossibleDate),
                            Some(d1) => {
                                match weekday {
                                    Some(wd) => {
                                        if *wd == d1.weekday_monday() {
                                            let c2 = Config::fresh_with(d1, Period::Day);
                                            moment_and_time(&c2, time)
                                        } else {
                                            Err(ErrKind::Weekday)
                                        }
                                    },
                                    None => {
                                        let c2 = Config::fresh_with(d1, Period::Day);
                                        moment_and_time(&c2, time)
                                    },
                                }
                            },
                        }
                    },
                },
                SomeDayAst::Relative(_) => Err(ErrKind::Parse),
            }
        },
        _ => Err(ErrKind::Parse),
    }
}

/// Resolution of a period expression that needs no anchor: relative
/// periods counted from the reference moment, a month of a stated year,
/// modified periods, and bare years.
pub open spec fn specific_period_model(p: PeriodAst, c: Config) -> Span {
    match p {
        PeriodAst::Relative { count, unit, ago } => {
            let delta = count * unit_ms(unit);
            let d = if ago {
                Instant::from_total(c.spec_now().total() - delta)
            } else {
                Instant::from_total(c.spec_now().total() + delta)
            };
            if unit is Week {
                Ok((d, Instant::from_total(d.total() + 7 * (MS_PER_DAY as int))))
            } else {
                expand_model(d, unit_period(unit), c)
            }
        },
        PeriodAst::MonthYear { month, year } => {
            let y = year_model(year, c);
            if valid_date(y, month as int, 1) {
                moment_and_time_model(
                    Config::fresh_config(
                        Instant::place(day_of_date(y, month as int, 1), 0),
                        Period::Month,
                    ),
                    None,
                )
            } else {
                Err(ErrKind::ImpossibleDate)
            }
        },
        PeriodAst::Modified { modifier, period } => {
            let step: int = match modifier {
                ModAst::This => 0,
                ModAst::Last => -1,
                ModAst::Next => 1,
            };
            match period {
                ModPeriodAst::MonthName(mn) => {
                    if 1 <= mn <= 12 {
                        let y = year_of_day(c.spec_now().sday()) + step;
                        Ok(month_span_model(y, mn as int))
                    } else {
                        Err(ErrKind::ImpossibleDate)
                    }
                },
                ModPeriodAst::WeekdayName(wd) => {
                    let off = weekday_from_monday(c.spec_now().sday()) - wd;
                    let d0 = Instant::from_total(
                        Instant::place(c.spec_now().sday(), 0).total() + (-off) * (
                        MS_PER_DAY as int),
                    );
                    let d = Instant::from_total(d0.total() + step * 7 * (MS_PER_DAY as int));
                    expand_model(d, Period::Day, c)
                },
                ModPeriodAst::Week => {
                    match expand_model(c.spec_now(), Period::Week, c) {
                        Err(k) => Err(k),
                        Ok((d, _)) => {
                            let d2 = Instant::from_total(
                                d.total() + step * 7 * (MS_PER_DAY as int),
                            );
                            expand_model(d2, Period::Week, c)
                        },
                    }
                },
                ModPeriodAst::Weekend => {
                    match expand_model(c.spec_now(), Period::Week, c.spec_with_monday(true)) {
                        Err(k) => Err(k),
                        Ok((_, e0)) => {
                            let e = Instant::from_total(
                                e0.total() + step * 7 * (MS_PER_DAY as int),
                            );
                            Ok(
                                (
                                    Instant::from_total(e.total() + (-2) * (MS_PER_DAY as int)),
                                    e,
                                ),
                            )
                        },
                    }
                },
                ModPeriodAst::Month => {
                    let y0 = year_of_day(c.spec_now().sday());
                    let m0 = month_of_day(c.spec_now().sday());
                    let (y, m): (int, int) = if step == 1 {
                        if m0 == 12 {
                            (y0 + 1, 1)
                        } else {
                            (y0, m0 + 1)
                        }
                    } else if step == -1 {
                        if m0 == 1 {
                            (y0 - 1, 12)
                        } else {
                            (y0, m0 - 1)
                        }
                    } else {
                        (y0, m0)
                    };
                    Ok(month_span_model(y, m))
                },
                ModPeriodAst::Year => {
                    let y = year_of_day(c.spec_now().sday()) + step;
                    Ok(year_span_model(y))
                },
                ModPeriodAst::PayPeriod => {
                    if c.spec_pay_period_start() is Some {
                        match expand_model(c.spec_now(), Period::PayPeriod, c) {
                            Err(k) => Err(k),
                            Ok((d, _)) => {
                                let d2 = Instant::from_total(
                                    d.total() + step * (c.spec_pay_period_length() as int) * (
                                    MS_PER_DAY as int),
                                );
                                expand_model(d2, Period::PayPeriod, c)
                            },
                        }
                    } else {
                        Err(ErrKind::NoPayPeriod)
                    }
                },
            }
        },
        PeriodAst::YearOnly(year) => {
            let y = year_model(year, c);
            if valid_date(y, 1, 1) {
                expand_model(Instant::place(day_of_date(y, 1, 1), 0), Period::Year, c)
            } else {
                Err(ErrKind::ImpossibleDate)
            }
        },
        PeriodAst::NamedWeekday(_) => Err(ErrKind::Parse),
        PeriodAst::NamedMonth(_) => Err(ErrKind::Parse),
    }
}

fn handle_specific_period(p: &PeriodAst, c: &Config) -> (r: Span)
    ensures
        r == specific_period_model(*p, *c),
{
    match p {
        PeriodAst::Relative { count, unit, ago } => {
            let delta = count_ms(*count, *unit);
            let d = if *ago {
                c.get_now().plus_total(-delta)
            } else {
                c.get_now().plus_total(delta)
            };
            if matches!(unit, UnitAst::Week) {
                Ok((d, d.add_days(7)))
            } else {
                expand(d, unit_period_x(*unit), c)
            }
        },
        PeriodAst::MonthYear { month, year } => {
            let y = year_num(year, c);
            match Instant::from_ymd(y, *month, 1) {
                None => Err(ErrKind::ImpossibleDate),
                Some(d1) => {
                    let c2 = Config::fresh_with(d1, Period::Month);
                    moment_and_time(&c2, None)
                },
            }
        },
        PeriodAst::Modified { modifier, period } => {
            let step: i64 = match modifier {
                ModAst::This => 0,
                ModAst::Last => -1,
                ModAst::Next => 1,
            };
            match period {
                ModPeriodAst::MonthName(mn) => {
                    if 1 <= *mn && *mn <= 12 {
                        let (y0, _m0) = c.get_now().year_month();
                        Ok(month_span(y0 + step, *mn))
                    } else {
                        Err(ErrKind::ImpossibleDate)
                    }
                },
                ModPeriodAst::WeekdayName(wd) => {
                    let off = (c.get_now().weekday_monday() as i64) - (*wd as i64);
                    let d0 = c.get_now().start_of_day().add_days(-off);
                    let d = d0.add_days(step * 7);
                    expand(d, Period::Day, c)
                },
                ModPeriodAst::Week => {
                    match expand(c.get_now(), Period::Week, c) {
                        Err(k) => Err(k),
                        Ok((d, _)) => {
                            let d2 = d.add_days(step * 7);
                            expand(d2, Period::Week, c)
                        },
                    }
                },
                ModPeriodAst::Weekend => {
                    let cm = c.reconfig_monday(true);
                    match expand(c.get_now(), Period::Week, &cm) {
                        Err(k) => Err(k),
                        Ok((_, e0)) => {
                            let e = e0.add_days(step * 7);
                            Ok((e.add_days(-2), e))
                        },
                    }
                },
                ModPeriodAst::Month => {
                    let (y0, m0) = c.get_now().year_month();
                    let (y, m): (i64, u8) = if step == 1 {
                        if m0 == 12 {
                            (y0 + 1, 1)
                        } else {
                            (y0, m0 + 1)
                        }
                    } else if step == -1 {
                        if m0 == 1 {
                            (y0 - 1, 12)
                        } else {
                            (y0, m0 - 1)
                        }
                    } else {
                        (y0, m0)
                    };
                    Ok(month_span(y, m))
                },
                ModPeriodAst::Year => {
                    let (y0, _m0) = c.get_now().year_month();
                    Ok(year_span(y0 + step))
                },
                ModPeriodAst::PayPeriod => {
                    if c.get_pay_period_start().is_some() {
                        match expand(c.get_now(), Period::PayPeriod, c) {
                            Err(k) => Err(k),
                            Ok((d, _)) => {
                                let ppl = c.get_pay_period_length();
                                let d2 = d.plus_total(
                                    (step as i128) * (ppl as i128) * 86400000i128,
                                );
                                proof {
                                    vstd::arithmetic::mul::lemma_mul_upper_bound(
                                        ppl as int,
                                        4294967295int,
                                        86400000int,
                                        86400000int,
                                    );
                                    vstd::arithmetic::mul::lemma_mul_nonnegative(
                                        ppl as int,
                                        86400000int,
                                    );
                                }
                                expand(d2, Period::PayPeriod, c)
                            },
                        }
                    } else {
                        Err(ErrKind::NoPayPeriod)
                    }
                },
            }
        },
        PeriodAst::YearOnly(year) => {
            let y = year_num(year, c);
            match Instant::from_ymd(y, 1, 1) {
                None => Err(ErrKind::ImpossibleDate),
                Some(d1) => expand(d1, Period::Year, c),
            }
        },
        PeriodAst::NamedWeekday(_) => Err(ErrKind::Parse),
        PeriodAst::NamedMonth(_) => Err(ErrKind::Parse),
    }
}

/// Resolution of an absolute terminus or a precise date-time.
pub open spec fn specific_time_model(s: SpecTimeAst, c: Config) -> Span {
    match s {
        SpecTimeAst::First => expand_model(
            Instant::place(crate::calendar::MIN_DAY as int, 0),
            c.spec_period(),
            c,
        ),
        SpecTimeAst::Last => Ok(
            (
                Instant::place(crate::calendar::MAX_DAY as int, 86399999),
                Instant::place(crate::calendar::MAX_DAY as int, 86399999),
            ),
        ),
        SpecTimeAst::Precise { year, month, day, time } => {
            match n_date_model(year, month as int, day as int, c) {
                Err(k) => Err(k),
                Ok(d) => {
                    let (ms, _mid) = time_ms_model(time);
                    expand_model(Instant::place(d.sday(), ms), Period::Second, c)
                },
            }
        },
    }
}

fn handle_specific_time(s: &SpecTimeAst, c: &Config) -> (r: Span)
    ensures
        r == specific_time_model(*s, *c),
{
    match s {
        SpecTimeAst::First => expand(first_moment(), c.get_period(), c),
        SpecTimeAst::Last => Ok((last_moment(), last_moment())),
        SpecTimeAst::Precise { year, month, day, time } => {
            match n_date(year, *month, *day, c) {
                Err(k) => Err(k),
                Ok(d) => {
                    let (ms, _mid) = time_ms(time);
                    expand(d.with_msec(ms), Period::Second, c)
                },
            }
        },
    }
}

/// The backward month-by-month search for a calendar day: starting at
/// month `m` of year `y`, the first date with day-of-month `dayn` that
/// exists and falls on the required weekday, within `fuel` months back.
pub open spec fn month_search(y: int, m: int, dayn: int, wd: Option<u8>, fuel: nat) -> Result<
    Instant,
    ErrKind,
>
    decreases fuel,
{
    if fuel == 0 {
        Err(ErrKind::ImpossibleDate)
    } else if valid_date(y, m, dayn) && (match wd {
        None => true,
        Some(w) => w as int == weekday_from_monday(day_of_date(y, m, dayn)),
    }) {
        Ok(Instant::place(day_of_date(y, m, dayn), 0))
    } else if m == 1 {
        month_search(y - 1, 12, dayn, wd, (fuel - 1) as nat)
    } else {
        month_search(y, m - 1, dayn, wd, (fuel - 1) as nat)
    }
}

/// Resolution of a day named without a year against an anchor.
pub open spec fn month_and_a_day_model(
    r: RelativeDayAst,
    c: Config,
    other: Instant,
    before: bool,
) -> Result<Instant, ErrKind> {
    match r {
        RelativeDayAst::OrdinalDay { weekday, day } => {
            let ny = year_of_day(c.spec_now().sday());
            let om = month_of_day(other.sday());
            let dayn = o_day_model(day, om);
            month_search(ny, om, dayn, weekday, 336)
        },
        RelativeDayAst::DayAndMonth { month, day } => {
            let dayn = o_day_model(day, month as int);
            let year = if before {
                year_of_day(c.spec_now().sday())
            } else {
                if (month as int) < month_of_day(other.sday()) {
                    year_of_day(other.sday()) + 1
                } else {
                    year_of_day(other.sday())
                }
            };
            if valid_date(year, month as int, dayn) {
                Ok(Instant::place(day_of_date(year, month as int, dayn), 0))
            } else {
                Err(ErrKind::ImpossibleDate)
            }
        },
        RelativeDayAst::Weekday(_) => Err(ErrKind::Parse),
    }
}

#[verifier::rlimit(80)]
fn month_and_a_day(r: &RelativeDayAst, c: &Config, other: Instant, before: bool) -> (res: Result<
    Instant,
    ErrKind,
>)
    ensures
        res == month_and_a_day_model(*r, *c, other, before),
{
    match r {
        RelativeDayAst::OrdinalDay { weekday, day } => {
            let (ny, _nm) = c.get_now().year_month();
            let (_oy, om) = other.year_month();
            let dayn = o_day_num(day, om);
            let mut y: i64 = ny;
            let mut m: u8 = om;
            let mut i: u32 = 0;
            while i < 336
                invariant
                    i <= 336,
                    1 <= m <= 12,
                    ny - (i as i64) <= y <= ny,
                    -262403 <= ny <= 262413,
                    *r == (RelativeDayAst::OrdinalDay { weekday: *weekday, day: *day }),
                    ny as int == year_of_day(c.spec_now().sday()),
                    om as int == month_of_day(other.sday()),
                    dayn as int == o_day_model(*day, month_of_day(other.sday())),
                    month_search(
                        y as int,
                        m as int,
                        dayn as int,
                        *weekday,
                        (336 - i) as nat,
                    ) == month_search(ny as int, om as int, dayn as int, *weekday, 336),
                decreases 336 - i,
            {
                match Instant::from_ymd(y, m, dayn) {
                    Some(d) => {
                        let ok = match weekday {
                            None => true,
                            Some(w) => d.weekday_monday() == *w,
                        };
                        if ok {
                            proof {
                                reveal_with_fuel(month_search, 2);
                                assert(valid_date(y as int, m as int, dayn as int));
                            }
                            return Ok(d);
                        }
                    },
                    None => {},
                }
                if m == 1 {
                    m = 12;
                    y = y - 1;
                } else {
                    m = m - 1;
                }
                i = i + 1;
            }
            Err(ErrKind::ImpossibleDate)
        },
        RelativeDayAst::DayAndMonth { month, day } => {
            let dayn = o_day_num(day, *month);
            let year: i64 = if before {
                let (ny, _nm) = c.get_now().year_month();
                ny
            } else {
                let (oy, om) = other.year_month();
                if *month < om {
                    oy + 1
                } else {
                    oy
                }
            };
            match Instant::from_ymd(year, *month, dayn) {
                Some(d) => Ok(d),
                None => Err(ErrKind::ImpossibleDate),
            }
        },
        RelativeDayAst::Weekday(_) => Err(ErrKind::Parse),
    }
}

/// Resolution of a fragment that needs an anchor: the nearest weekday on
/// the required side, a day in a month, a bare clock time rolled onto the
/// right side of the anchor, or the nearest named month.
pub open spec fn relative_moment_model(
    f: FragmentAst,
    c: Config,
    other: Instant,
    before: bool,
) -> Span {
    match f {
        FragmentAst::Moment(m) => match m.point {
            PointAst::DayPoint { time_on, day, time_at } => {
                let time = if time_on is Some {
                    time_on
                } else {
                    time_at
                };
                match day {
                    SomeDayAst::Relative(rel) => match rel {
                        RelativeDayAst::Weekday(wd) => weekday_near_model(
                            wd,
                            time,
                            c,
                            other,
                            before,
                        ),
                        _ => match month_and_a_day_model(rel, c, other, before) {
                            Err(k) => Err(k),
                            Ok(d) => moment_and_time_model(c.spec_with(d, Period::Day), time),
                        },
                    },
                    _ => Err(ErrKind::Parse),
                }
            },
            PointAst::BareTime(t) => {
                let (ms, mid) = time_ms_model(t);
                let t0 = Instant::place(other.sday(), ms);
                let t1 = if mid {
                    Instant::from_total(t0.total() + 1 * (MS_PER_DAY as int))
                } else {
                    t0
                };
                let t2 = if before && t1.total() > other.total() {
                    Instant::from_total(t1.total() - 1 * (MS_PER_DAY as int))
                } else if !before && t1.total() < other.total() {
                    Instant::from_total(t1.total() + 1 * (MS_PER_DAY as int))
                } else {
                    t1
                };
                expand_model(t2, Period::Second, c)
            },
            PointAst::SpecificTime(_) => Err(ErrKind::Parse),
        },
        FragmentAst::Period(p) => match p {
            PeriodAst::NamedWeekday(wd) => weekday_near_model(wd, None, c, other, before),
            PeriodAst::NamedMonth(mn) => {
                if 1 <= mn <= 12 {
                    let oy = year_of_day(other.sday());
                    let om = month_of_day(other.sday());
                    let year = if before {
                        if mn as int > om {
                            oy - 1
                        } else {
                            oy
                        }
                    } else {
                        if (mn as int) < om {
                            oy + 1
                        } else {
                            oy
                        }
                    };
                    let (d1, d2) = month_span_model(year, mn as int);
                    if before && d1.total() >= other.total() {
                        Ok(month_span_model(year - 1, mn as int))
                    } else if !before && d2.total() <= other.total() {
                        Ok(month_span_model(year + 1, mn as int))
                    } else {
                        Ok((d1, d2))
                    }
                } else {
                    Err(ErrKind::ImpossibleDate)
                }
            },
            _ => Err(ErrKind::Parse),
        },
    }
}

/// The nearest day with the given weekday strictly on the required side
/// of the anchor — always at least one day away, even when the anchor
/// falls on that weekday — widened to a day or narrowed to a stated
/// clock time.
pub open spec fn weekday_near_model(
    wd: u8,
    time: Option<TimeAst>,
    c: Config,
    other: Instant,
    before: bool,
) -> Span {
    let sun_o = (weekday_from_monday(other.sday()) + 1) % 7;
    let sun_w = ((wd as int) + 1) % 7;
    let delta = if before {
        let back = sun_o - sun_w;
        if back <= 0 {
            -(back + 7)
        } else {
            -back
        }
    } else {
        let fwd = sun_w - sun_o;
        if fwd <= 0 {
            fwd + 7
        } else {
            fwd
        }
    };
    let d = Instant::from_total(
        Instant::place(other.sday(), 0).total() + delta * (MS_PER_DAY as int),
    );
    moment_and_time_model(c.spec_with(d, Period::Day), time)
}

fn weekday_near(wd: u8, time: Option<TimeAst>, c: &Config, other: Instant, before: bool) -> (r:
    Span)
    ensures
        r == weekday_near_model(wd, time, *c, other, before),
{
    let sun_o: i64 = (((other.weekday_monday() as u32) + 1) % 7) as i64;
    let sun_w: i64 = (((wd as u32) + 1) % 7) as i64;
    let delta: i64 = if before {
        let back = sun_o - sun_w;
        if back <= 0 {
            -(back + 7)
        } else {
            -back
        }
    } else {
        let fwd = sun_w - sun_o;
        if fwd <= 0 {
            fwd + 7
        } else {
            fwd
        }
    };
    let d = other.start_of_day().add_days(delta);
    let c2 = c.reconfig(d, Period::Day);
    moment_and_time(&c2, time)
}

fn relative_moment(f: &FragmentAst, c: &Config, other: Instant, before: bool) -> (r: Span)
    ensures
        r == relative_moment_model(*f, *c, other, before),
{
    match f {
        FragmentAst::Moment(m) => match &m.point {
            PointAst::DayPoint { time_on, day, time_at } => {
                let time: Option<TimeAst> = if time_on.is_some() {
                    *time_on
                } else {
                    *time_at
                };
                match day {
                    SomeDayAst::Relative(rel) => match rel {
                        RelativeDayAst::Weekday(wd) => weekday_near(*wd, time, c, other, before),
                        _ => match month_and_a_day(rel, c, other, before) {
                            Err(k) => Err(k),
                            Ok(d) => {
                                let c2 = c.reconfig(d, Period::Day);
                                moment_and_time(&c2, time)
                            },
                        },
                    },
                    _ => Err(ErrKind::Parse),
                }
            },
            PointAst::BareTime(t) => {
                let (ms, mid) = time_ms(t);
                let t0 = other.with_msec(ms);
                let t1 = if mid {
                    t0.add_days(1)
                } else {
                    t0
                };
                let t2 = if before && other.lt(t1) {
                    t1.add_days(-1)
                } else if !before && t1.lt(other) {
                    t1.add_days(1)
                } else {
                    t1
                };
                expand(t2, Period::Second, c)
            },
            PointAst::SpecificTime(_) => Err(ErrKind::Parse),
        },
        FragmentAst::Period(p) => match p {
            PeriodAst::NamedWeekday(wd) => weekday_near(*wd, None, c, other, before),
            PeriodAst::NamedMonth(mn) => {
                if 1 <= *mn && *mn <= 12 {
                    let (oy, om) = other.year_month();
                    let year: i64 = if before {
                        if *mn > om {
                            oy - 1
                        } else {
                            oy
                        }
                    } else {
                        if *mn < om {
                            oy + 1
                        } else {
                            oy
                        }
                    };
                    let (d1, d2) = month_span(year, *mn);
                    if before && !d1.lt(other) {
                        Ok(month_span(year - 1, *mn))
                    } else if !before && !other.lt(d2) {
                        Ok(month_span(year + 1, *mn))
                    } else {
                        Ok((d1, d2))
                    }
                } else {
                    Err(ErrKind::ImpossibleDate)
                }
            },
            _ => Err(ErrKind::Parse),
        },
    }
}

/// Application of an adjustment clause to a resolved interval: "before"
/// and "after" give zero-width points one duration outside the interval,
/// "before and after" spreads the duration to both sides of the start,
/// and "around" centers the duration on the start.
pub open spec fn adjust_model(d1: Instant, d2: Instant, f: FragmentAst) -> (Instant, Instant) {
    match f {
        FragmentAst::Moment(m) => match m.adjustment {
            Some(a) => {
                let dur = a.count * unit_ms(a.unit);
                match a.direction {
                    DirAst::Before => {
                        let d = Instant::from_total(d1.total() - dur);
                        (d, d)
                    },
                    DirAst::After => {
                        let d = Instant::from_total(d2.total() + dur);
                        (d, d)
                    },
                    DirAst::BeforeAndAfter => (
                        Instant::from_total(d1.total() - dur),
                        Instant::from_total(d1.total() + dur),
                    ),
                    DirAst::Around => {
                        let nd1 = Instant::from_total(d1.total() - dur / 2);
                        (nd1, Instant::from_total(nd1.total() + dur))
                    },
                }
            },
            None => (d1, d2),
        },
        FragmentAst::Period(_) => (d1, d2),
    }
}

fn adjust(d1: Instant, d2: Instant, f: &FragmentAst) -> (r: (Instant, Instant))
    ensures
        r == adjust_model(d1, d2, *f),
{
    match f {
        FragmentAst::Moment(m) => match &m.adjustment {
            Some(a) => {
                let dur = count_ms(a.count, a.unit);
                match a.direction {
                    DirAst::Before => {
                        let d = d1.plus_total(-dur);
                        (d, d)
                    },
                    DirAst::After => {
                        let d = d2.plus_total(dur);
                        (d, d)
                    },
                    DirAst::BeforeAndAfter => (d1.plus_total(-dur), d1.plus_total(dur)),
                    DirAst::Around => {
                        let half: i128 = (((dur as u128) / 2) as i128);
                        let nd1 = d1.plus_total(-half);
                        (nd1, nd1.plus_total(dur))
                    },
                }
            },
            None => (d1, d2),
        },
        FragmentAst::Period(_) => (d1, d2),
    }
}

/// The boundary a range ends at.  When the two candidates fall on the
/// same calendar day the near side is the terminus regardless of the
/// preposition class; otherwise a through-class preposition takes the
/// far side and a to-class one the near side.
pub open spec fn pick_terminus_model(d1: Instant, d2: Instant, through: bool) -> Instant {
    if d1.sday() == d2.sday() {
        d1
    } else if through {
        d2
    } else {
        d1
    }
}

fn pick_terminus(d1: Instant, d2: Instant, through: bool) -> (r: Instant)
    ensures
        r == pick_terminus_model(d1, d2, through),
{
    if d1.day_number() == d2.day_number() {
        d1
    } else if through {
        d2
    } else {
        d1
    }
}

/// Resolution of a fragment that carries its own calendar position.
pub open spec fn specific_moment_model(f: FragmentAst, c: Config) -> Span {
    match f {
        FragmentAst::Moment(m) => match m.point {
            PointAst::DayPoint { day, .. } => match day {
                SomeDayAst::Relative(_) => Err(ErrKind::Parse),
                _ => specific_day_model(m, c),
            },
            PointAst::SpecificTime(s) => specific_time_model(s, c),
            PointAst::BareTime(_) => Err(ErrKind::Parse),
        },
        FragmentAst::Period(p) => specific_period_model(p, c),
    }
}

fn specific_moment(f: &FragmentAst, c: &Config) -> (r: Span)
    ensures
        r == specific_moment_model(*f, *c),
{
    match f {
        FragmentAst::Moment(m) => match &m.point {
            PointAst::DayPoint { day, .. } => match day {
                SomeDayAst::Relative(_) => Err(ErrKind::Parse),
                _ => handle_specific_day(m, c),
            },
            PointAst::SpecificTime(s) => handle_specific_time(s, c),
            PointAst::BareTime(_) => Err(ErrKind::Parse),
        },
        FragmentAst::Period(p) => handle_specific_period(p, c),
    }
}

/// Resolution of a single moment or period: a specific fragment stands on
/// its own; a relative one resolves against the reference moment, toward
/// the past or the future by configuration.
pub open spec fn one_time_model(f: FragmentAst, c: Config) -> Span {
    if crate::ast::spec_is_specific(f) {
        specific_moment_model(f, c)
    } else {
        relative_moment_model(f, c, c.spec_now(), c.spec_default_to_past())
    }
}

fn handle_one_time(f: &FragmentAst, c: &Config) -> (r: Span)
    ensures
        r == one_time_model(*f, *c),
{
    if crate::ast::is_specific(f) {
        specific_moment(f, c)
    } else {
        relative_moment(f, c, c.get_now(), c.get_default_to_past())
    }
}

/// The complete resolution of a recognized time expression: the resulting
/// interval and whether the phrase was literally a two-sided range.
pub open spec fn resolve_model(e: TimeExpr, c: Config) -> Result<
    (Instant, Instant, bool),
    ErrKind,
> {
    match e {
        TimeExpr::Universal => Ok(
            (
                Instant::place(crate::calendar::MIN_DAY as int, 0),
                Instant::place(crate::calendar::MAX_DAY as int, 86399999),
                false,
            ),
        ),
        TimeExpr::One(f) => match one_time_model(f, c) {
            Err(k) => Err(k),
            Ok((d1, d2)) => {
                let (d3, d4) = adjust_model(d1, d2, f);
                if d1 == d3 {
                    Ok((d1, d2, false))
                } else {
                    Ok((d3, d4, false))
                }
            },
        },
        TimeExpr::Since { beginning, frag } => {
            let excl = beginning == Some(false);
            let incl = beginning == Some(true) || (!excl && crate::ast::spec_has_clock(frag));
            let r = if crate::ast::spec_is_specific(frag) {
                specific_moment_model(frag, c)
            } else {
                relative_moment_model(frag, c, c.spec_now(), true)
            };
            match r {
                Err(k) => Err(k),
                Ok((d1, d2)) => {
                    let t0 = if incl {
                        d1
                    } else {
                        d2
                    };
                    let t = if !(incl || excl) && t0.total() > c.spec_now().total() {
                        d1
                    } else {
                        t0
                    };
                    if t.total() > c.spec_now().total() {
                        Err(ErrKind::Misordered)
                    } else {
                        Ok((t, c.spec_now(), false))
                    }
                },
            }
        },
        TimeExpr::Range { first, last, through } => {
            let fs = crate::ast::spec_is_specific(first);
            let ls = crate::ast::spec_is_specific(last);
            if fs && ls {
                match specific_moment_model(first, c) {
                    Err(k) => Err(k),
                    Ok((a1, a2)) => {
                        let (d1, _x) = adjust_model(a1, a2, first);
                        match specific_moment_model(last, c) {
                            Err(k) => Err(k),
                            Ok((b1, b2)) => {
                                let (e1, e2) = adjust_model(b1, b2, last);
                                let d2 = pick_terminus_model(e1, e2, through);
                                if d1.total() <= d2.total() {
                                    Ok((d1, d2, true))
                                } else {
                                    Err(ErrKind::Misordered)
                                }
                            },
                        }
                    },
                }
            } else if fs {
                match specific_moment_model(first, c) {
                    Err(k) => Err(k),
                    Ok((a1, a2)) => {
                        let (d1, _x) = adjust_model(a1, a2, first);
                        match relative_moment_model(last, c, d1, false) {
                            Err(k) => Err(k),
                            Ok((b1, b2)) => {
                                let (e1, e2) = adjust_model(b1, b2, last);
                                let d2 = pick_terminus_model(e1, e2, through);
                                Ok((d1, d2, true))
                            },
                        }
                    },
                }
            } else if ls {
                match specific_moment_model(last, c) {
                    Err(k) => Err(k),
                    Ok((b1, b2)) => {
                        let (e1, e2) = adjust_model(b1, b2, last);
                        let d2 = pick_terminus_model(e1, e2, through);
                        match relative_moment_model(first, c, d2, true) {
                            Err(k) => Err(k),
                            Ok((a1, a2)) => {
                                let (d1, _x) = adjust_model(a1, a2, first);
                                Ok((d1, d2, true))
                            },
                        }
                    },
                }
            } else {
                match relative_moment_model(first, c, c.spec_now(), c.spec_default_to_past()) {
                    Err(k) => Err(k),
                    Ok((a1, a2)) => {
                        let (d1, _x) = adjust_model(a1, a2, first);
                        match relative_moment_model(last, c, d1, false) {
                            Err(k) => Err(k),
                            Ok((b1, b2)) => {
                                let (e1, e2) = adjust_model(b1, b2, last);
                                let d2 = pick_terminus_model(e1, e2, through);
                                Ok((d1, d2, true))
                            },
                        }
                    },
                }
            }
        },
    }
}

/// Resolves a recognized time expression against a configuration,
/// reporting the failure kind through `ErrKind`.
pub(crate) fn resolve_kinds(e: &TimeExpr, c: &Config) -> (r: Result<
    (Instant, Instant, bool),
    ErrKind,
>)
    ensures
        r == resolve_model(*e, *c),
{
    match e {
        TimeExpr::Universal => Ok((first_moment(), last_moment(), false)),
        TimeExpr::One(f) => match handle_one_time(f, c) {
            Err(k) => Err(k),
            Ok((d1, d2)) => {
                let (d3, d4) = adjust(d1, d2, f);
                if d1 == d3 {
                    Ok((d1, d2, false))
                } else {
                    Ok((d3, d4, false))
                }
            },
        },
        TimeExpr::Since { beginning, frag } => {
            let excl = *beginning == Some(false);
            let incl = *beginning == Some(true) || (!excl && crate::ast::has_clock(frag));
            let r = if crate::ast::is_specific(frag) {
                specific_moment(frag, c)
            } else {
                relative_moment(frag, c, c.get_now(), true)
            };
            match r {
                Err(k) => Err(k),
                Ok((d1, d2)) => {
                    let t0 = if incl {
                        d1
                    } else {
                        d2
                    };
                    let t = if !(incl || excl) && c.get_now().lt(t0) {
                        d1
                    } else {
                        t0
                    };
                    if c.get_now().lt(t) {
                        Err(ErrKind::Misordered)
                    } else {
                        Ok((t, c.get_now(), false))
                    }
                },
            }
        },
        TimeExpr::Range { first, last, through } => {
            let fs = crate::ast::is_specific(first);
            let ls = crate::ast::is_specific(last);
            if fs && ls {
                match specific_moment(first, c) {
                    Err(k) => Err(k),
                    Ok((a1, a2)) => {
                        let (d1, _x) = adjust(a1, a2, first);
                        match specific_moment(last, c) {
                            Err(k) => Err(k),
                            Ok((b1, b2)) => {
                                let (e1, e2) = adjust(b1, b2, last);
                                let d2 = pick_terminus(e1, e2, *through);
                                if d1.le(d2) {
                                    Ok((d1, d2, true))
                                } else {
                                    Err(ErrKind::Misordered)
                                }
                            },
                        }
                    },
                }
            } else if fs {
                match specific_moment(first, c) {
                    Err(k) => Err(k),
                    Ok((a1, a2)) => {
                        let (d1, _x) = adjust(a1, a2, first);
                        match relative_moment(last, c, d1, false) {
                            Err(k) => Err(k),
                            Ok((b1, b2)) => {
                                let (e1, e2) = adjust(b1, b2, last);
                                let d2 = pick_terminus(e1, e2, *through);
                                Ok((d1, d2, true))
                            },
                        }
                    },
                }
            } else if ls {
                match specific_moment(last, c) {
                    Err(k) => Err(k),
                    Ok((b1, b2)) => {
                        let (e1, e2) = adjust(b1, b2, last);
                        let d2 = pick_terminus(e1, e2, *through);
                        match relative_moment(first, c, d2, true) {
                            Err(k) => Err(k),
                            Ok((a1, a2)) => {
                                let (d1, _x) = adjust(a1, a2, first);
                                Ok((d1, d2, true))
                            },
                        }
                    },
                }
            } else {
                match relative_moment(first, c, c.get_now(), c.get_default_to_past()) {
                    Err(k) => Err(k),
                    Ok((a1, a2)) => {
                        let (d1, _x) = adjust(a1, a2, first);
                        match relative_moment(last, c, d1, false) {
                            Err(k) => Err(k),
                            Ok((b1, b2)) => {
                                let (e1, e2) = adjust(b1, b2, last);
                                let d2 = pick_terminus(e1, e2, *through);
                                Ok((d1, d2, true))
                            },
                        }
                    },
                }
            }
        },
    }
}

/// The result of [`resolve`] with each error reduced to its kind.
pub open spec fn outcome_of(r: Result<(Instant, Instant, bool), crate::error::TimeError>) -> Result<
    (Instant, Instant, bool),
    ErrKind,
> {
    match r {
        Ok(v) => Ok(v),
        Err(e) => Err(crate::error::kind_of(e)),
    }
}

/// Resolves a recognized time expression against a configuration.  The
/// result is exactly `resolve_model` of the pair: the same expression and
/// configuration always give the same interval, the same range flag and
/// the same error kind, and each error carries its fixed message.
pub fn resolve(e: &TimeExpr, c: &Config) -> (r: Result<
    (Instant, Instant, bool),
    crate::error::TimeError,
>)
    ensures
        outcome_of(r) == resolve_model(*e, *c),
        r matches Err(err) ==> crate::error::text_of(err) == crate::error::message_of(
            crate::error::kind_of(err),
        ),
{
    match resolve_kinds(e, c) {
        Ok(v) => Ok(v),
        Err(k) => Err(crate::error::error_from_kind(k)),
    }
}

} // verus!
