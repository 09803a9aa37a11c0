//! Proleptic-Gregorian day arithmetic on signed years.
//!
//! A date is encoded as the number of days since 1970-01-01; the encoding
//! `day_of_date` is the standard civil-calendar formula, shifted so that all
//! intermediate quantities stay non-negative.  Years run from `MIN_YEAR`
//! (before the common era) to `MAX_YEAR`.

use vstd::prelude::*;

verus! {

/// First year representable by an `Instant`.
pub const MIN_YEAR: i64 = -262144;
/// Last year representable by an `Instant`.
pub const MAX_YEAR: i64 = 262143;
/// Day number of `MIN_YEAR`-01-01.
pub const MIN_DAY: i64 = -96465658;
/// Day number of `MAX_YEAR`-12-31.
pub const MAX_DAY: i64 = 95026601;

/// Lower bound on day numbers that internal computations may produce.
pub const DAY_LO: i64 = -96560000;
/// Upper bound on day numbers that internal computations may produce.
pub const DAY_HI: i64 = 95125000;

/// Whether year `y` is a leap year of the proleptic Gregorian calendar.
pub open spec fn leap_year(y: int) -> bool {
    (y + 263200) % 4 == 0 && ((y + 263200) % 100 != 0 || (y + 263200) % 400 == 0)
}

/// Number of days in month `m` of year `y`.
pub open spec fn month_days(y: int, m: int) -> int {
    if m == 2 {
        if leap_year(y) {
            29
        } else {
            28
        }
    } else if m == 4 || m == 6 || m == 9 || m == 11 {
        30
    } else {
        31
    }
}

/// Day number of the date `y`-`m`-`d`: days elapsed since 1970-01-01,
/// negative for earlier dates.  The formula treats `d` linearly, so
/// `day_of_date(y, m, d) == day_of_date(y, m, 1) + d - 1`.
pub open spec fn day_of_date(y: int, m: int, d: int) -> int {
    let yp = if m <= 2 {
        y - 1
    } else {
        y
    };
    let yy = yp + 263200;
    let era = yy / 400;
    let yoe = yy - era * 400;
    let mp = (m + 9) % 12;
    let doy = (153 * mp + 2) / 5 + d - 1;
    let doe = yoe * 365 + yoe / 4 - yoe / 100 + doy;
    era * 146097 + doe - 96851294
}

/// A year, month and day form a calendar date.
pub open spec fn valid_date(y: int, m: int, d: int) -> bool {
    MIN_YEAR <= y <= MAX_YEAR && 1 <= m <= 12 && 1 <= d <= month_days(y, m)
}

/// Leap-year test.
pub fn is_leap_year(y: i64) -> (b: bool)
    requires
        -263000 <= y <= 263000,
    ensures
        b == leap_year(y as int),
{
    let yy = (y + 263200) as u64;
    yy % 4 == 0 && (yy % 100 != 0 || yy % 400 == 0)
}

/// Number of days in month `m` of year `y`.
pub fn month_length(y: i64, m: u8) -> (n: u8)
    requires
        -263000 <= y <= 263000,
        1 <= m <= 12,
    ensures
        n == month_days(y as int, m as int),
{
    if m == 2 {
        if is_leap_year(y) {
            29
        } else {
            28
        }
    } else if m == 4 || m == 6 || m == 9 || m == 11 {
        30
    } else {
        31
    }
}

/// Computes the day number of `y`-`m`-`d`.
pub fn date_to_day(y: i64, m: u8, d: u8) -> (z: i64)
    requires
        -263000 <= y <= 263000,
        1 <= m <= 12,
        1 <= d <= 31,
    ensures
        z == day_of_date(y as int, m as int, d as int),
{
    let yp: i64 = if m <= 2 {
        y - 1
    } else {
        y
    };
    let yy: u64 = (yp + 263200) as u64;
    let era: u64 = yy / 400;
    let yoe: u64 = yy - era * 400;
    let mp: u64 = ((m as u64) + 9) % 12;
    let doy: u64 = (153 * mp + 2) / 5 + (d as u64) - 1;
    let doe: u64 = yoe * 365 + yoe / 4 - yoe / 100 + doy;
    proof {
        assert(era <= 1316) by {
            vstd::arithmetic::div_mod::lemma_div_is_ordered(yy as int, 526600, 400);
        };
        assert(yoe / 4 <= 99) by {
            vstd::arithmetic::div_mod::lemma_div_is_ordered(yoe as int, 399, 4);
        };
        assert(yoe / 100 * 100 <= yoe);
    }
    (era as i64) * 146097 + (doe as i64) - 96851294
}

/// The year that the binary search over `day_of_date(-, 1, 1)` assigns to
/// day number `z` when started on the bracket `[lo, hi)`.
pub open spec fn year_search(z: int, lo: int, hi: int) -> int
    decreases hi - lo,
{
    if hi - lo <= 1 {
        lo
    } else {
        let mid = lo + (hi - lo) / 2;
        if day_of_date(mid, 1, 1) <= z {
            year_search(z, mid, hi)
        } else {
            year_search(z, lo, mid)
        }
    }
}

/// The year that contains day number `z`.
pub open spec fn year_of_day(z: int) -> int {
    year_search(z, -262403, 262414)
}

/// The first month `m` at or after `from` whose successor starts after `z`
/// in year `y`; December when no earlier month qualifies.
pub open spec fn month_scan(z: int, y: int, from: int) -> int
    decreases 12 - from,
{
    if from >= 12 {
        12
    } else if z < day_of_date(y, from + 1, 1) {
        from
    } else {
        month_scan(z, y, from + 1)
    }
}

/// The month that contains day number `z`.
pub open spec fn month_of_day(z: int) -> int {
    month_scan(z, year_of_day(z), 1)
}

/// Recovers the year and month that contain day number `z`: the result
/// `(y, m)` satisfies `day_of_date(y, m, 1) <= z` and `z` lies before the
/// first day of the following month.
pub fn day_to_year_month(z: i64) -> (r: (i64, u8))
    requires
        DAY_LO <= z <= DAY_HI,
    ensures
        r.0 == year_of_day(z as int),
        r.1 == month_of_day(z as int),
        -262403 <= r.0 <= 262413,
        1 <= r.1 <= 12,
        day_of_date(r.0 as int, r.1 as int, 1) <= z,
        z < if r.1 == 12 {
            day_of_date(r.0 as int + 1, 1, 1)
        } else {
            day_of_date(r.0 as int, r.1 as int + 1, 1)
        },
{
    proof {
        assert(day_of_date(-262403, 1, 1) == -96560255);
        assert(day_of_date(262414, 1, 1) == 95125218);
    }
    let mut lo: i64 = -262403;
    let mut hi: i64 = 262414;
    while lo + 1 < hi
        invariant
            -262403 <= lo < hi <= 262414,
            day_of_date(lo as int, 1, 1) <= z,
            z < day_of_date(hi as int, 1, 1),
            year_search(z as int, lo as int, hi as int) == year_of_day(z as int),
        decreases hi - lo,
    {
        let mid: i64 = lo + (((hi - lo) as u64 / 2) as i64);
        if date_to_day(mid, 1, 1) <= z {
            lo = mid;
        } else {
            hi = mid;
        }
    }
    let y: i64 = lo;
    let mut m: u8 = 1;
    let mut done: bool = false;
    while !done && m < 12
        invariant
            -262403 <= y <= 262413,
            y == year_of_day(z as int),
            1 <= m <= 12,
            day_of_date(y as int, m as int, 1) <= z,
            done ==> m < 12 && z < day_of_date(y as int, m as int + 1, 1),
            if done {
                m == month_of_day(z as int)
            } else {
                month_scan(z as int, y as int, m as int) == month_of_day(z as int)
            },
            z < day_of_date(y as int + 1, 1, 1),
        decreases 12 - m + if done {
            0int
        } else {
            1int
        },
    {
        let nd = date_to_day(y, m + 1, 1);
        if z < nd {
            done = true;
        } else {
            m = m + 1;
        }
    }
    (y, m)
}

/// Weekday of day number `z`, counted from Monday: 0 is Monday, 6 is Sunday.
pub open spec fn weekday_from_monday(z: int) -> int {
    (z + 3) % 7
}

/// Weekday of day number `z`, counted from Monday.
pub fn day_weekday(z: i64) -> (w: u8)
    requires
        DAY_LO - 100 <= z <= DAY_HI + 100,
    ensures
        w as int == weekday_from_monday(z as int),
        w <= 6,
{
    proof {
        vstd::arithmetic::div_mod::lemma_mod_multiples_vanish(
            15000000int,
            z as int + 3,
            7int,
        );
    }
    let zz = (z + 105000003) as u64;
    (zz % 7) as u8
}



/// Day numbers of all triples a caller may form stay within an
/// `i64`-comfortable band, even a little beyond the calendar's years.
pub proof fn lemma_day_coarse_bounds(y: int, m: int, d: int)
    requires
        -263000 <= y <= 263000,
        1 <= m <= 12,
        0 <= d <= 32,
    ensures
        -97000000 <= day_of_date(y, m, d) <= 96000000,
{
    let yp = if m <= 2 { y - 1 } else { y };
    let yy = yp + 263200;
    let era = yy / 400;
    let yoe = yy - era * 400;
    assert(199 <= yy <= 526200);
    assert(0 <= era <= 1315) by {
        vstd::arithmetic::div_mod::lemma_div_pos_is_pos(yy, 400);
        vstd::arithmetic::div_mod::lemma_div_is_ordered(yy, 526200, 400);
    };
    assert(0 <= yoe < 400);
    assert(yoe / 4 <= 99) by {
        vstd::arithmetic::div_mod::lemma_div_is_ordered(yoe, 399, 4);
    };
    assert(yoe / 4 >= 0) by {
        vstd::arithmetic::div_mod::lemma_div_pos_is_pos(yoe, 4);
    };
    assert(yoe / 100 * 100 <= yoe);
    assert(yoe / 100 >= 0) by {
        vstd::arithmetic::div_mod::lemma_div_pos_is_pos(yoe, 100);
    };
    let mp = (m + 9) % 12;
    assert(0 <= mp <= 11);
    assert((153 * mp + 2) / 5 * 5 <= 153 * mp + 2);
    assert((153 * mp + 2) / 5 >= 0) by {
        vstd::arithmetic::div_mod::lemma_div_pos_is_pos(153 * mp + 2, 5);
    };
}

/// One year advances the day number by 365 days, or 366 across a leap
/// year's February.
pub proof fn lemma_year_step(y: int)
    requires
        -262600 <= y <= 262600,
    ensures
        day_of_date(y + 1, 1, 1) == day_of_date(y, 1, 1) + 365 + if leap_year(y) {
            1int
        } else {
            0int
        },
{
    let w = y + 263200;
    let era1 = w / 400;
    let yoe1 = w % 400;
    vstd::arithmetic::div_mod::lemma_fundamental_div_mod(w, 400);
    vstd::arithmetic::div_mod::lemma_mod_bound(w, 400);
    assert(w % 4 == yoe1 % 4) by {
        assert(w == 4 * (100 * era1) + yoe1);
        vstd::arithmetic::div_mod::lemma_mod_multiples_vanish(100 * era1, yoe1, 4);
    };
    assert(w % 100 == yoe1 % 100) by {
        assert(w == 100 * (4 * era1) + yoe1);
        vstd::arithmetic::div_mod::lemma_mod_multiples_vanish(4 * era1, yoe1, 100);
    };
    if yoe1 == 0 {
        assert(w - 1 == 400 * (era1 - 1) + 399);
        vstd::arithmetic::div_mod::lemma_fundamental_div_mod_converse(w - 1, 400, era1 - 1, 399);
        assert(leap_year(y)) by {
            assert(w % 400 == 0);
            assert(w % 4 == 0);
            assert(w == 4 * (100 * era1));
            vstd::arithmetic::div_mod::lemma_mod_multiples_basic(100 * era1, 4);
        };
    } else {
        assert(w - 1 == 400 * era1 + (yoe1 - 1));
        vstd::arithmetic::div_mod::lemma_fundamental_div_mod_converse(w - 1, 400, era1, yoe1 - 1);
        let a4 = yoe1 / 4;
        let r4 = yoe1 % 4;
        vstd::arithmetic::div_mod::lemma_fundamental_div_mod(yoe1, 4);
        vstd::arithmetic::div_mod::lemma_mod_bound(yoe1, 4);
        if r4 == 0 {
            assert(yoe1 - 1 == 4 * (a4 - 1) + 3);
            vstd::arithmetic::div_mod::lemma_fundamental_div_mod_converse(
                yoe1 - 1,
                4,
                a4 - 1,
                3,
            );
        } else {
            assert(yoe1 - 1 == 4 * a4 + (r4 - 1));
            vstd::arithmetic::div_mod::lemma_fundamental_div_mod_converse(
                yoe1 - 1,
                4,
                a4,
                r4 - 1,
            );
        }
        let a100 = yoe1 / 100;
        let r100 = yoe1 % 100;
        vstd::arithmetic::div_mod::lemma_fundamental_div_mod(yoe1, 100);
        vstd::arithmetic::div_mod::lemma_mod_bound(yoe1, 100);
        if r100 == 0 {
            assert(yoe1 - 1 == 100 * (a100 - 1) + 99);
            vstd::arithmetic::div_mod::lemma_fundamental_div_mod_converse(
                yoe1 - 1,
                100,
                a100 - 1,
                99,
            );
            assert(yoe1 % 4 == 0) by {
                assert(yoe1 == 4 * (25 * a100));
                vstd::arithmetic::div_mod::lemma_mod_multiples_basic(25 * a100, 4);
            };
        } else {
            assert(yoe1 - 1 == 100 * a100 + (r100 - 1));
            vstd::arithmetic::div_mod::lemma_fundamental_div_mod_converse(
                yoe1 - 1,
                100,
                a100,
                r100 - 1,
            );
        }
    }
}

/// Within a year, the next month's first day is a whole month away.
pub proof fn lemma_month_step(y: int, m: int)
    requires
        -262600 <= y <= 262600,
        1 <= m <= 11,
    ensures
        day_of_date(y, m + 1, 1) == day_of_date(y, m, 1) + month_days(y, m),
{
    if m == 2 {
        lemma_year_step(y);
    }
}

/// The first day of the next year is a December away from December's
/// first day.
pub proof fn lemma_december_step(y: int)
    requires
        -262600 <= y <= 262600,
    ensures
        day_of_date(y + 1, 1, 1) == day_of_date(y, 12, 1) + 31,
{
}


/// The year binary search stays within its bracket.
pub proof fn lemma_year_search_bounds(z: int, lo: int, hi: int)
    requires
        lo < hi,
    ensures
        lo <= year_search(z, lo, hi) < hi,
    decreases hi - lo,
{
    if hi - lo <= 1 {
    } else {
        let mid = lo + (hi - lo) / 2;
        vstd::arithmetic::div_mod::lemma_mod_bound(hi - lo, 2);
        vstd::arithmetic::div_mod::lemma_fundamental_div_mod(hi - lo, 2);
        if day_of_date(mid, 1, 1) <= z {
            lemma_year_search_bounds(z, mid, hi);
        } else {
            lemma_year_search_bounds(z, lo, mid);
        }
    }
}

/// The month scan stays between its starting month and December.
pub proof fn lemma_month_scan_bounds(z: int, y: int, from: int)
    requires
        1 <= from <= 12,
    ensures
        from <= month_scan(z, y, from) <= 12,
    decreases 12 - from,
{
    if from >= 12 {
    } else if z < day_of_date(y, from + 1, 1) {
    } else {
        lemma_month_scan_bounds(z, y, from + 1);
    }
}

/// The year binary search brackets its day number: starting from a
/// bracket that contains `z`, it ends on the year whose first day is at
/// or before `z` and whose successor starts after it.
pub proof fn lemma_year_search_sandwich(z: int, lo: int, hi: int)
    requires
        lo < hi,
        day_of_date(lo, 1, 1) <= z,
        z < day_of_date(hi, 1, 1),
    ensures
        ({
            let y = year_search(z, lo, hi);
            day_of_date(y, 1, 1) <= z < day_of_date(y + 1, 1, 1)
        }),
    decreases hi - lo,
{
    if hi - lo <= 1 {
    } else {
        let mid = lo + (hi - lo) / 2;
        vstd::arithmetic::div_mod::lemma_mod_bound(hi - lo, 2);
        vstd::arithmetic::div_mod::lemma_fundamental_div_mod(hi - lo, 2);
        if day_of_date(mid, 1, 1) <= z {
            lemma_year_search_sandwich(z, mid, hi);
        } else {
            lemma_year_search_sandwich(z, lo, mid);
        }
    }
}

/// The year assigned to a day number brackets it.
pub proof fn lemma_year_of_day_sandwich(z: int)
    requires
        DAY_LO as int <= z <= DAY_HI as int,
    ensures
        day_of_date(year_of_day(z), 1, 1) <= z < day_of_date(year_of_day(z) + 1, 1, 1),
{
    assert(day_of_date(-262403, 1, 1) == -96560255);
    assert(day_of_date(262414, 1, 1) == 95125218);
    lemma_year_search_sandwich(z, -262403, 262414);
}

/// The month scan brackets its day number: starting from a month whose
/// first day is at or before `z`, within a year that contains `z`, it
/// ends on the month whose successor starts after `z`.
pub proof fn lemma_month_scan_sandwich(z: int, y: int, from: int)
    requires
        1 <= from <= 12,
        day_of_date(y, from, 1) <= z,
        z < day_of_date(y + 1, 1, 1),
    ensures
        ({
            let m = month_scan(z, y, from);
            day_of_date(y, m, 1) <= z && z < if m == 12 {
                day_of_date(y + 1, 1, 1)
            } else {
                day_of_date(y, m + 1, 1)
            }
        }),
    decreases 12 - from,
{
    if from >= 12 {
    } else if z < day_of_date(y, from + 1, 1) {
    } else {
        lemma_month_scan_sandwich(z, y, from + 1);
    }
}

/// The month assigned to a day number brackets it.
pub proof fn lemma_month_of_day_sandwich(z: int)
    requires
        DAY_LO as int <= z <= DAY_HI as int,
    ensures
        ({
            let y = year_of_day(z);
            let m = month_of_day(z);
            day_of_date(y, m, 1) <= z && z < if m == 12 {
                day_of_date(y + 1, 1, 1)
            } else {
                day_of_date(y, m + 1, 1)
            }
        }),
{
    lemma_year_of_day_sandwich(z);
    lemma_month_scan_sandwich(z, year_of_day(z), 1);
}

/// The day number of every calendar date lies within `[DAY_LO, DAY_HI]`.
pub proof fn lemma_day_in_range(y: int, m: int, d: int)
    requires
        valid_date(y, m, d),
    ensures
        DAY_LO <= day_of_date(y, m, d) <= DAY_HI,
{
    let yp = if m <= 2 { y - 1 } else { y };
    let yy = yp + 263200;
    let era = yy / 400;
    let yoe = yy - era * 400;
    assert(1055 <= yy <= 525343);
    assert(2 <= era <= 1313) by {
        vstd::arithmetic::div_mod::lemma_div_is_ordered(1055, yy, 400);
        vstd::arithmetic::div_mod::lemma_div_is_ordered(yy, 525343, 400);
    };
    assert(0 <= yoe < 400);
    assert(yoe / 4 <= 99) by {
        vstd::arithmetic::div_mod::lemma_div_is_ordered(yoe, 399, 4);
    };
    assert(yoe / 100 * 100 <= yoe);
    let mp = (m + 9) % 12;
    assert(0 <= mp <= 11);
}

} // verus!
