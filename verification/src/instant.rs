//! Zoneless points on the proleptic Gregorian calendar, at millisecond
//! resolution, together with saturating arithmetic on them.

use vstd::prelude::*;

use crate::calendar::{
    date_to_day, day_of_date, day_to_year_month, day_weekday, month_length, valid_date,
    weekday_from_monday, DAY_HI, DAY_LO, MAX_DAY, MAX_YEAR, MIN_DAY, MIN_YEAR,
};

verus! {

/// Milliseconds in one day.
pub const MS_PER_DAY: i64 = 86400000;

/// Total milliseconds of the first representable moment.
pub const MIN_TOTAL_MS: i64 = -8334632851200000;

/// Total milliseconds of the last representable moment.
pub const MAX_TOTAL_MS: i64 = 8210298412799999;

/// A zoneless point in time: a day number paired with the milliseconds
/// elapsed since that day's midnight.
#[derive(Clone, Copy, PartialEq, Eq, Structural, Debug, Hash)]
pub struct Instant {
    pub(crate) day: i64,
    pub(crate) msec: u32,
}

impl Instant {
    /// Every instant keeps its day number within the supported calendar
    /// range and its millisecond offset within one day.
    #[verifier::type_invariant]
    pub closed spec fn inv(self) -> bool {
        DAY_LO <= self.day <= DAY_HI && self.msec < 86400000
    }

    /// Day number of this instant (days since 1970-01-01).
    pub closed spec fn sday(self) -> int {
        self.day as int
    }

    /// Milliseconds since this instant's midnight.
    pub closed spec fn smsec(self) -> int {
        self.msec as int
    }

    /// This instant as a total count of milliseconds since 1970-01-01.
    pub open spec fn total(self) -> int {
        self.sday() * (MS_PER_DAY as int) + self.smsec()
    }

    /// The instant `t` total milliseconds from 1970-01-01, clamped into the
    /// representable range.
    pub closed spec fn from_total(t: int) -> Instant {
        let c = if t < MIN_TOTAL_MS as int {
            MIN_TOTAL_MS as int
        } else if t > MAX_TOTAL_MS as int {
            MAX_TOTAL_MS as int
        } else {
            t
        };
        Instant { day: (c / (MS_PER_DAY as int)) as i64, msec: (c % (MS_PER_DAY as int)) as u32 }
    }

    /// The instant with day number `day` and `msec` milliseconds past its
    /// midnight; meaningful when both lie in their ranges.
    pub closed spec fn place(day: int, msec: int) -> Instant {
        Instant { day: day as i64, msec: msec as u32 }
    }

    /// Builds the midnight instant of a calendar date, or `None` when the
    /// triple is not a date the calendar contains.
    pub fn from_ymd(year: i64, month: u8, day: u8) -> (r: Option<Instant>)
        ensures
            r is Some <==> valid_date(year as int, month as int, day as int),
            r is Some ==> r->0 == Instant::place(
                day_of_date(year as int, month as int, day as int),
                0,
            ),
            r is Some ==> r->0.sday() == day_of_date(year as int, month as int, day as int)
                && r->0.smsec() == 0,
    {
        if year < MIN_YEAR || year > MAX_YEAR || month < 1 || month > 12 {
            return None;
        }
        if day < 1 || day > month_length(year, month) {
            return None;
        }
        let z = date_to_day(year, month, day);
        proof {
            crate::calendar::lemma_day_in_range(year as int, month as int, day as int);
        }
        Some(Instant { day: z, msec: 0 })
    }

    /// Replaces the time of day, keeping the date; `None` when the clock
    /// reading is out of range.
    pub fn with_hms(self, hour: u8, minute: u8, second: u8) -> (r: Option<Instant>)
        ensures
            r is Some <==> hour < 24 && minute < 60 && second < 60,
            r is Some ==> r->0 == Instant::place(
                self.sday(),
                hour * 3600000 + minute * 60000 + second * 1000,
            ),
    {
        if hour >= 24 || minute >= 60 || second >= 60 {
            return None;
        }
        proof {
            use_type_invariant(self);
        }
        let ms: u32 = (hour as u32) * 3600000 + (minute as u32) * 60000 + (second as u32) * 1000;
        Some(Instant { day: self.day, msec: ms })
    }

    /// The midnight that starts this instant's day.
    pub fn start_of_day(self) -> (r: Instant)
        ensures
            r == Instant::place(self.sday(), 0),
            r.sday() == self.sday(),
            r.smsec() == 0,
    {
        proof {
            use_type_invariant(self);
        }
        Instant { day: self.day, msec: 0 }
    }

    /// Adds `delta` milliseconds, clamping at the ends of the calendar.
    pub fn plus_total(self, delta: i128) -> (r: Instant)
        requires
            -1000000000000000000000000000000 <= delta <= 1000000000000000000000000000000,
        ensures
            r == Instant::from_total(self.total() + delta),
    {
        proof {
            use_type_invariant(self);
        }
        let t: i128 = (self.day as i128) * 86400000i128 + (self.msec as i128) + delta;
        let c: i64 = if t < MIN_TOTAL_MS as i128 {
            MIN_TOTAL_MS
        } else if t > MAX_TOTAL_MS as i128 {
            MAX_TOTAL_MS
        } else {
            t as i64
        };
        let shifted: u64 = (c + 8640000000000000) as u64;
        proof {
            let d = 86400000int;
            let cc = c as int;
            vstd::arithmetic::div_mod::lemma_fundamental_div_mod(cc, d);
            vstd::arithmetic::div_mod::lemma_div_multiples_vanish_fancy(
                cc / d + 100000000,
                cc % d,
                d,
            );
            assert(d * (cc / d + 100000000) + cc % d == cc + 8640000000000000) by (nonlinear_arith)
                requires
                    cc == d * (cc / d) + cc % d,
                    d == 86400000int,
            ;
            vstd::arithmetic::div_mod::lemma_mod_multiples_vanish(100000000int, cc, d);
            vstd::arithmetic::div_mod::lemma_div_is_ordered(MIN_TOTAL_MS as int, cc, d);
            vstd::arithmetic::div_mod::lemma_div_is_ordered(cc, MAX_TOTAL_MS as int, d);
        }
        let day: i64 = ((shifted / 86400000) as i64) - 100000000;
        let msec: u32 = (shifted % 86400000) as u32;
        Instant { day, msec }
    }

    /// The midnight instant of day number `z`, clamped into the calendar:
    /// below the first day it is the first moment, beyond the last day it
    /// is the last moment.
    pub(crate) fn from_day_clamped(z: i64) -> (r: Instant)
        requires
            -200000000 <= z <= 200000000,
        ensures
            r == Instant::from_total(z * (MS_PER_DAY as int)),
    {
        proof {
            let d = 86400000int;
            vstd::arithmetic::div_mod::lemma_div_multiples_vanish(z as int, d);
            vstd::arithmetic::div_mod::lemma_mod_multiples_basic(z as int, d);
            assert(d * (z as int) == (z as int) * d) by (nonlinear_arith);
        }
        if z < MIN_DAY {
            Instant { day: MIN_DAY, msec: 0 }
        } else if z > MAX_DAY {
            Instant { day: MAX_DAY, msec: 86399999 }
        } else {
            Instant { day: z, msec: 0 }
        }
    }

    /// Adds `n` days, clamping at the ends of the calendar.
    pub fn add_days(self, n: i64) -> (r: Instant)
        ensures
            r == Instant::from_total(self.total() + n * (MS_PER_DAY as int)),
    {
        self.plus_total((n as i128) * 86400000i128)
    }

    /// Adds `n` weeks, clamping at the ends of the calendar.
    pub fn add_weeks(self, n: i64) -> (r: Instant)
        ensures
            r == Instant::from_total(self.total() + n * 604800000),
    {
        self.plus_total((n as i128) * 604800000i128)
    }

    /// Adds `n` hours, clamping at the ends of the calendar.
    pub fn add_hours(self, n: i64) -> (r: Instant)
        ensures
            r == Instant::from_total(self.total() + n * 3600000),
    {
        self.plus_total((n as i128) * 3600000i128)
    }

    /// Adds `n` minutes, clamping at the ends of the calendar.
    pub fn add_minutes(self, n: i64) -> (r: Instant)
        ensures
            r == Instant::from_total(self.total() + n * 60000),
    {
        self.plus_total((n as i128) * 60000i128)
    }

    /// Adds `n` seconds, clamping at the ends of the calendar.
    pub fn add_seconds(self, n: i64) -> (r: Instant)
        ensures
            r == Instant::from_total(self.total() + n * 1000),
    {
        self.plus_total((n as i128) * 1000i128)
    }

    /// Adds `n` milliseconds, clamping at the ends of the calendar.
    pub fn add_milliseconds(self, n: i64) -> (r: Instant)
        ensures
            r == Instant::from_total(self.total() + n),
    {
        self.plus_total(n as i128)
    }

    /// Rounds the time of day down to a whole multiple of `unit_ms`
    /// milliseconds, keeping the date.
    pub(crate) fn truncate_to(self, unit_ms: u32) -> (r: Instant)
        requires
            0 < unit_ms,
        ensures
            r == Instant::place(self.sday(), self.smsec() - self.smsec() % (unit_ms as int)),
            r.sday() == self.sday(),
            r.smsec() == self.smsec() - self.smsec() % (unit_ms as int),
    {
        proof {
            use_type_invariant(self);
            vstd::arithmetic::div_mod::lemma_mod_decreases(self.msec as nat, unit_ms as nat);
        }
        Instant { day: self.day, msec: self.msec - self.msec % unit_ms }
    }

    /// Replaces the time of day with `ms` milliseconds past midnight.
    pub(crate) fn with_msec(self, ms: u32) -> (r: Instant)
        requires
            ms < 86400000,
        ensures
            r == Instant::place(self.sday(), ms as int),
            r.sday() == self.sday(),
            r.smsec() == ms as int,
    {
        proof {
            use_type_invariant(self);
        }
        Instant { day: self.day, msec: ms }
    }

    /// Whether this instant is strictly before `other`.
    pub fn lt(self, other: Instant) -> (b: bool)
        ensures
            b == (self.total() < other.total()),
    {
        proof {
            use_type_invariant(self);
            use_type_invariant(other);
        }
        self.day < other.day || (self.day == other.day && self.msec < other.msec)
    }

    /// Whether this instant is at or before `other`.
    pub fn le(self, other: Instant) -> (b: bool)
        ensures
            b == (self.total() <= other.total()),
    {
        proof {
            use_type_invariant(self);
            use_type_invariant(other);
        }
        self.day < other.day || (self.day == other.day && self.msec <= other.msec)
    }

    /// The year and month this instant falls in.
    pub fn year_month(self) -> (r: (i64, u8))
        ensures
            r.0 == crate::calendar::year_of_day(self.sday()),
            r.1 == crate::calendar::month_of_day(self.sday()),
            -262403 <= r.0 <= 262413,
            1 <= r.1 <= 12,
            day_of_date(r.0 as int, r.1 as int, 1) <= self.sday(),
            self.sday() < if r.1 == 12 {
                day_of_date(r.0 as int + 1, 1, 1)
            } else {
                day_of_date(r.0 as int, r.1 as int + 1, 1)
            },
    {
        proof {
            use_type_invariant(self);
        }
        day_to_year_month(self.day)
    }

    /// The weekday this instant falls on, counted from Monday as 0.
    pub fn weekday_monday(self) -> (w: u8)
        ensures
            w as int == weekday_from_monday(self.sday()),
            w <= 6,
    {
        proof {
            use_type_invariant(self);
        }
        day_weekday(self.day)
    }

    /// The calendar date this instant falls on: year, month and day of
    /// the month.
    pub fn date_parts(self) -> (r: (i64, u8, i64))
        ensures
            r.0 == crate::calendar::year_of_day(self.sday()),
            r.1 == crate::calendar::month_of_day(self.sday()),
            r.2 == self.sday() - day_of_date(r.0 as int, r.1 as int, 1) + 1,
            1 <= r.2,
    {
        proof {
            use_type_invariant(self);
        }
        let (y, m) = day_to_year_month(self.day);
        let first = date_to_day(y, m, 1);
        (y, m, self.day - first + 1)
    }

    /// The clock reading of this instant: hour, minute, second and
    /// millisecond past that second.
    pub fn clock_parts(self) -> (r: (u32, u32, u32, u32))
        ensures
            r.0 == self.smsec() / 3600000,
            r.1 == (self.smsec() % 3600000) / 60000,
            r.2 == (self.smsec() % 60000) / 1000,
            r.3 == self.smsec() % 1000,
            r.0 < 24 && r.1 < 60 && r.2 < 60 && r.3 < 1000,
    {
        proof {
            use_type_invariant(self);
            vstd::arithmetic::div_mod::lemma_div_is_ordered(
                self.msec as int,
                86399999,
                3600000,
            );
            vstd::arithmetic::div_mod::lemma_div_is_ordered(
                self.msec as int % 3600000,
                3599999,
                60000,
            );
            vstd::arithmetic::div_mod::lemma_div_is_ordered(
                self.msec as int % 60000,
                59999,
                1000,
            );
        }
        (
            self.msec / 3600000,
            (self.msec % 3600000) / 60000,
            (self.msec % 60000) / 1000,
            self.msec % 1000,
        )
    }

    /// Day number of this instant.
    pub(crate) fn day_number(self) -> (z: i64)
        ensures
            z == self.sday(),
            DAY_LO <= z <= DAY_HI,
    {
        proof {
            use_type_invariant(self);
        }
        self.day
    }

    /// Millisecond offset of this instant within its day.
    pub(crate) fn msec_of_day(self) -> (ms: u32)
        ensures
            ms == self.smsec(),
            ms < 86400000,
    {
        proof {
            use_type_invariant(self);
        }
        self.msec
    }
}





/// `Instant::from_total` is monotone: later totals give later instants.
pub proof fn lemma_from_total_monotone(a: int, b: int)
    requires
        a <= b,
    ensures
        Instant::from_total(a).total() <= Instant::from_total(b).total(),
{
    lemma_from_total(a);
    lemma_from_total(b);
}

/// What `Instant::place` yields when its arguments are in range.
pub broadcast proof fn lemma_place(day: int, msec: int)
    requires
        -9223372036854775808 <= day <= 9223372036854775807,
        0 <= msec < 4294967296,
    ensures
        (#[trigger] Instant::place(day, msec)).sday() == day,
        Instant::place(day, msec).smsec() == msec,
{
}

/// What `Instant::from_total` yields: the total is `t` clamped into the
/// representable range, split into a day number and an offset inside the day.
pub broadcast proof fn lemma_from_total(t: int)
    ensures
        #[trigger] Instant::from_total(t).total() == if t < MIN_TOTAL_MS as int {
            MIN_TOTAL_MS as int
        } else if t > MAX_TOTAL_MS as int {
            MAX_TOTAL_MS as int
        } else {
            t
        },
        0 <= Instant::from_total(t).smsec() < 86400000,
        MIN_DAY as int <= Instant::from_total(t).sday() <= MAX_DAY as int,
{
    let c = if t < MIN_TOTAL_MS as int {
        MIN_TOTAL_MS as int
    } else if t > MAX_TOTAL_MS as int {
        MAX_TOTAL_MS as int
    } else {
        t
    };
    let d = 86400000int;
    vstd::arithmetic::div_mod::lemma_fundamental_div_mod(c, d);
    vstd::arithmetic::div_mod::lemma_div_is_ordered(MIN_TOTAL_MS as int, c, d);
    vstd::arithmetic::div_mod::lemma_div_is_ordered(c, MAX_TOTAL_MS as int, d);
}

/// The moment regarded as the beginning of time.
pub fn first_moment() -> (r: Instant)
    ensures
        r == Instant::place(MIN_DAY as int, 0),
        r.sday() == MIN_DAY as int,
        r.smsec() == 0,
{
    Instant { day: MIN_DAY, msec: 0 }
}

/// The moment regarded as the end of time.
pub fn last_moment() -> (r: Instant)
    ensures
        r == Instant::place(MAX_DAY as int, 86399999),
        r.sday() == MAX_DAY as int,
        r.smsec() == 86399999,
{
    Instant { day: MAX_DAY, msec: 86399999 }
}

} // verus!
