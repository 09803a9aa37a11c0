//! The tagged shape of a recognized time expression.
//!
//! The grammar produces one of these trees; the resolver turns it, together
//! with a [`crate::config::Config`], into an instant interval.  Weekdays are
//! numbered from Monday as 0 through Sunday as 6; months from 1.

use vstd::prelude::*;

verus! {

/// A clock-time reading as it was written.
#[derive(Clone, Copy, PartialEq, Eq, Structural, Debug)]
pub enum TimeAst {
    /// "noon" or "midnight".
    Named { noon: bool },
    /// A 12-hour reading; `pm` is `None` when no meridiem suffix was
    /// written, `Some(true)` for PM and `Some(false)` for AM.
    Hour12 { hour: u8, minute: Option<u8>, second: Option<u8>, pm: Option<bool> },
    /// A 24-hour reading; 24 itself denotes hour zero.
    Hour24 { hour: u8, minute: Option<u8>, second: Option<u8> },
}

/// A year as it was written.
#[derive(Clone, Copy, PartialEq, Eq, Structural, Debug)]
#[allow(inconsistent_fields)]
pub enum YearAst {
    /// A two-digit year, to be widened to a century near `now`.
    Short { y: u8 },
    /// A plain numeral, possibly preceded by a minus sign.
    Plain { y: u32, negative: bool },
    /// A numeral followed by an era suffix.
    Suffixed { y: u32, bce: bool },
}

/// A Roman-calendar day name, resolved against a month.
#[derive(Clone, Copy, PartialEq, Eq, Structural, Debug)]
pub enum RomanDay {
    Kalends,
    Nones,
    Ides,
}

/// A day of the month, either as a number or as a Roman day name.
#[derive(Clone, Copy, PartialEq, Eq, Structural, Debug)]
pub enum OrdDay {
    /// A numeric or spelled-out day of the month.
    Num(u8),
    /// Kalends, nones or ides.
    Roman(RomanDay),
}

/// One of the day adverbs.
#[derive(Clone, Copy, PartialEq, Eq, Structural, Debug)]
pub enum AdverbDay {
    Now,
    Today,
    Tomorrow,
    Yesterday,
}

/// A date written with an explicit year.
#[derive(Clone, Copy, PartialEq, Eq, Structural, Debug)]
#[allow(inconsistent_fields)]
pub enum DateAst {
    /// A numeric date; the grammar has already chosen which parts are the
    /// year, month and day.
    Numeric { year: YearAst, month: u8, day: u8 },
    /// An alphabetic date, optionally prefixed with a weekday to be
    /// checked against the resolved date.
    Alpha { weekday: Option<u8>, month: u8, day: OrdDay, year: YearAst },
}

/// A day identified without a year, to be resolved against an anchor.
#[derive(Clone, Copy, PartialEq, Eq, Structural, Debug)]
pub enum RelativeDayAst {
    /// A bare weekday name.
    Weekday(u8),
    /// "the fifth", optionally prefixed with a weekday constraint.
    OrdinalDay { weekday: Option<u8>, day: OrdDay },
    /// A month together with a day of that month.
    DayAndMonth { month: u8, day: OrdDay },
}

/// The day part of a moment.
#[derive(Clone, Copy, PartialEq, Eq, Structural, Debug)]
pub enum SomeDayAst {
    /// A day fixed on the calendar by itself.
    Adverb(AdverbDay),
    /// A date with an explicit year.
    Date(DateAst),
    /// A day that needs an anchor to be resolved.
    Relative(RelativeDayAst),
}

/// A moment fixed on the timeline without reference to a day.
#[derive(Clone, Copy, PartialEq, Eq, Structural, Debug)]
pub enum SpecTimeAst {
    /// The first expressible moment.
    First,
    /// The last expressible moment.
    Last,
    /// A numeric date followed by a 24-hour clock reading.
    Precise { year: YearAst, month: u8, day: u8, time: TimeAst },
}

/// The core of a moment: a day with optional clock times, an absolute
/// terminus, or a bare clock time.
#[derive(Clone, Copy, PartialEq, Eq, Structural, Debug)]
pub enum PointAst {
    /// A day, optionally with a clock time before it ("3 PM on Friday")
    /// or after it ("Friday at 3 PM").
    DayPoint { time_on: Option<TimeAst>, day: SomeDayAst, time_at: Option<TimeAst> },
    /// An absolute terminus or a precise date-time.
    SpecificTime(SpecTimeAst),
    /// A bare clock time, resolved against an anchor's day.
    BareTime(TimeAst),
}

/// A duration unit.
#[derive(Clone, Copy, PartialEq, Eq, Structural, Debug)]
pub enum UnitAst {
    Week,
    Day,
    Hour,
    Minute,
    Second,
}

/// The direction of an adjustment clause.
#[derive(Clone, Copy, PartialEq, Eq, Structural, Debug)]
pub enum DirAst {
    Before,
    After,
    Around,
    BeforeAndAfter,
}

/// "`count` `unit` before/after/around/before-and-after" a moment.
#[derive(Clone, Copy, PartialEq, Eq, Structural, Debug)]
pub struct AdjustAst {
    pub count: u32,
    pub unit: UnitAst,
    pub direction: DirAst,
}

/// A moment: an optional adjustment clause around a point in time.
#[derive(Clone, Copy, PartialEq, Eq, Structural, Debug)]
pub struct MomentAst {
    pub adjustment: Option<AdjustAst>,
    pub point: PointAst,
}

/// The modifier of a modifiable period; "the" counts as `This`.
#[derive(Clone, Copy, PartialEq, Eq, Structural, Debug)]
pub enum ModAst {
    This,
    Last,
    Next,
}

/// A period that a modifier can shift.
#[derive(Clone, Copy, PartialEq, Eq, Structural, Debug)]
pub enum ModPeriodAst {
    Week,
    Month,
    Year,
    PayPeriod,
    Weekend,
    /// A month name, as in "last April".
    MonthName(u8),
    /// A weekday name, as in "next Friday".
    WeekdayName(u8),
}

/// A period expression.
#[derive(Clone, Copy, PartialEq, Eq, Structural, Debug)]
pub enum PeriodAst {
    /// A bare weekday name used as a period.
    NamedWeekday(u8),
    /// A bare month name used as a period.
    NamedMonth(u8),
    /// A period with a this/last/next modifier.
    Modified { modifier: ModAst, period: ModPeriodAst },
    /// A month of a stated year.
    MonthYear { month: u8, year: YearAst },
    /// A bare year.
    YearOnly(YearAst),
    /// "`count` `unit` ago" or "`count` `unit` from now".
    Relative { count: u32, unit: UnitAst, ago: bool },
}

/// One side of a range, or the whole of a one-time expression.
#[derive(Clone, Copy, PartialEq, Eq, Structural, Debug)]
pub enum FragmentAst {
    Moment(MomentAst),
    Period(PeriodAst),
}

/// A recognized time expression.
#[derive(Clone, Copy, PartialEq, Eq, Structural, Debug)]
pub enum TimeExpr {
    /// A phrase denoting all of time.
    Universal,
    /// A single moment or period.
    One(FragmentAst),
    /// Two moments or periods joined by a preposition; `through` is true
    /// for the inclusive preposition class.
    Range { first: FragmentAst, last: FragmentAst, through: bool },
    /// "since ..." or "after ...": `beginning` records an explicit "the
    /// beginning of" (`Some(true)`) or "the end of" (`Some(false)`).
    Since { beginning: Option<bool>, frag: FragmentAst },
}

/// Whether a fragment is specific: resolvable without an anchor.
pub open spec fn spec_is_specific(f: FragmentAst) -> bool {
    match f {
        FragmentAst::Moment(m) => match m.point {
            PointAst::DayPoint { day, .. } => !(day is Relative),
            PointAst::SpecificTime(_) => true,
            PointAst::BareTime(_) => false,
        },
        FragmentAst::Period(p) => match p {
            PeriodAst::NamedWeekday(_) => false,
            PeriodAst::NamedMonth(_) => false,
            _ => true,
        },
    }
}

/// Whether a fragment is specific: resolvable without an anchor.
pub fn is_specific(f: &FragmentAst) -> (b: bool)
    ensures
        b == spec_is_specific(*f),
{
    match f {
        FragmentAst::Moment(m) => match &m.point {
            PointAst::DayPoint { day, .. } => !matches!(day, SomeDayAst::Relative(_)),
            PointAst::SpecificTime(_) => true,
            PointAst::BareTime(_) => false,
        },
        FragmentAst::Period(p) => match p {
            PeriodAst::NamedWeekday(_) => false,
            PeriodAst::NamedMonth(_) => false,
            _ => true,
        },
    }
}

/// Whether a fragment contains an explicit clock reading, which makes a
/// bare "since" clause inclusive.
pub open spec fn spec_has_clock(f: FragmentAst) -> bool {
    match f {
        FragmentAst::Moment(m) => match m.point {
            PointAst::DayPoint { time_on, time_at, .. } => time_on is Some || time_at is Some,
            PointAst::SpecificTime(s) => s is Precise,
            PointAst::BareTime(_) => true,
        },
        FragmentAst::Period(_) => false,
    }
}

/// Whether a fragment contains an explicit clock reading.
pub fn has_clock(f: &FragmentAst) -> (b: bool)
    ensures
        b == spec_has_clock(*f),
{
    match f {
        FragmentAst::Moment(m) => match &m.point {
            PointAst::DayPoint { time_on, time_at, .. } => time_on.is_some() || time_at.is_some(),
            PointAst::SpecificTime(s) => matches!(s, SpecTimeAst::Precise { .. }),
            PointAst::BareTime(_) => true,
        },
        FragmentAst::Period(_) => false,
    }
}

} // verus!
