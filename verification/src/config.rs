//! The policy bundle that disambiguates relative time expressions.

use vstd::prelude::*;

use crate::instant::Instant;

verus! {

/// A calendar granularity to which an instant can be widened.
#[derive(Clone, Copy, PartialEq, Eq, Structural, Debug)]
pub enum Period {
    Year,
    Month,
    Week,
    Day,
    Hour,
    Minute,
    Second,
    PayPeriod,
}

/// A collection of parameters that can influence the interpretation of
/// time expressions.
///
/// The reference moment `now` defaults to 1970-01-01 00:00; callers that
/// care about the wall clock supply their own moment through [`Config::now`].
#[derive(Clone, Copy, Debug)]
pub struct Config {
    pub(crate) now: Instant,
    pub(crate) monday_starts_week: bool,
    pub(crate) period: Period,
    pub(crate) pay_period_length: u32,
    pub(crate) pay_period_start: Option<Instant>,
    pub(crate) default_to_past: bool,
}

impl Config {
    /// The reference moment against which relative phrases resolve.
    pub closed spec fn spec_now(self) -> Instant {
        self.now
    }

    /// Whether Monday begins the week.
    pub closed spec fn spec_monday_starts_week(self) -> bool {
        self.monday_starts_week
    }

    /// The granularity to which a bare moment widens.
    pub closed spec fn spec_period(self) -> Period {
        self.period
    }

    /// The pay period length in days.
    pub closed spec fn spec_pay_period_length(self) -> u32 {
        self.pay_period_length
    }

    /// The reference pay-period start date, if one is configured.
    pub closed spec fn spec_pay_period_start(self) -> Option<Instant> {
        self.pay_period_start
    }

    /// Whether ambiguous relative phrases prefer the past.
    pub closed spec fn spec_default_to_past(self) -> bool {
        self.default_to_past
    }

    /// All parameters of this configuration, as one tuple: the reference
    /// moment, the Monday flag, the default granularity, the pay period
    /// length, the pay period start and the past-preference flag.
    pub open spec fn fields(self) -> (Instant, bool, Period, u32, Option<Instant>, bool) {
        (
            self.spec_now(),
            self.spec_monday_starts_week(),
            self.spec_period(),
            self.spec_pay_period_length(),
            self.spec_pay_period_start(),
            self.spec_default_to_past(),
        )
    }

    /// Reads the reference moment.
    pub(crate) fn get_now(&self) -> (n: Instant)
        ensures
            n == self.spec_now(),
    {
        self.now
    }

    /// Reads the week-start flag.
    pub(crate) fn get_monday_starts_week(&self) -> (b: bool)
        ensures
            b == self.spec_monday_starts_week(),
    {
        self.monday_starts_week
    }

    /// Reads the default granularity.
    pub(crate) fn get_period(&self) -> (p: Period)
        ensures
            p == self.spec_period(),
    {
        self.period
    }

    /// Reads the pay period length.
    pub(crate) fn get_pay_period_length(&self) -> (l: u32)
        ensures
            l == self.spec_pay_period_length(),
    {
        self.pay_period_length
    }

    /// Reads the pay period start.
    pub(crate) fn get_pay_period_start(&self) -> (s: Option<Instant>)
        ensures
            s == self.spec_pay_period_start(),
    {
        self.pay_period_start
    }

    /// Reads the past-preference flag.
    pub(crate) fn get_default_to_past(&self) -> (b: bool)
        ensures
            b == self.spec_default_to_past(),
    {
        self.default_to_past
    }

    /// This configuration with the reference moment and granularity
    /// replaced.
    pub closed spec fn spec_with(self, n: Instant, p: Period) -> Config {
        Config { now: n, period: p, ..self }
    }

    /// This configuration with the week-start flag replaced.
    pub closed spec fn spec_with_monday(self, monday: bool) -> Config {
        Config { monday_starts_week: monday, ..self }
    }

    /// A default configuration carrying the given reference moment and
    /// granularity.
    pub closed spec fn fresh_config(n: Instant, p: Period) -> Config {
        Config {
            now: n,
            monday_starts_week: true,
            period: p,
            pay_period_length: 7,
            pay_period_start: None,
            default_to_past: true,
        }
    }

    /// Returns this configuration with the reference moment and
    /// granularity replaced.
    pub(crate) fn reconfig(&self, n: Instant, p: Period) -> (c: Config)
        ensures
            c == self.spec_with(n, p),
    {
        Config { now: n, period: p, ..*self }
    }

    /// Returns this configuration with the week-start flag replaced.
    pub(crate) fn reconfig_monday(&self, monday: bool) -> (c: Config)
        ensures
            c == self.spec_with_monday(monday),
    {
        Config { monday_starts_week: monday, ..*self }
    }

    /// Returns a default configuration carrying the given reference moment
    /// and granularity.
    pub(crate) fn fresh_with(n: Instant, p: Period) -> (c: Config)
        ensures
            c == Config::fresh_config(n, p),
    {
        Config {
            now: n,
            monday_starts_week: true,
            period: p,
            pay_period_length: 7,
            pay_period_start: None,
            default_to_past: true,
        }
    }

    /// Constructs a configuration with the default parameters.
    pub fn new() -> (c: Config)
        ensures
            c == Config::fresh_config(Instant::place(0, 0), Period::Minute),
            c.spec_now().sday() == 0 && c.spec_now().smsec() == 0,
            c.spec_monday_starts_week(),
            c.spec_period() == Period::Minute,
            c.spec_pay_period_length() == 7,
            c.spec_pay_period_start() is None,
            c.spec_default_to_past(),
    {
        let epoch = Instant::from_ymd(1970, 1, 1).unwrap();
        proof {
            assert(crate::calendar::day_of_date(1970, 1, 1) == 0);
        }
        Config {
            now: epoch,
            monday_starts_week: true,
            period: Period::Minute,
            pay_period_length: 7,
            pay_period_start: None,
            default_to_past: true,
        }
    }

    /// Returns a copy of the configuration parameters with the "now"
    /// moment set to the instant supplied.
    pub fn now(&self, n: Instant) -> (c: Config)
        ensures
            c.fields() == (n, self.fields().1, self.fields().2, self.fields().3, self.fields().4, self.fields().5),
    {
        Config { now: n, ..*self }
    }

    /// Returns a copy with the default granularity replaced.
    pub(crate) fn period(&self, p: Period) -> (c: Config)
        ensures
            c.fields() == (self.fields().0, self.fields().1, p, self.fields().3, self.fields().4, self.fields().5),
    {
        Config { period: p, ..*self }
    }

    /// Returns a copy of the configuration parameters with whether Monday
    /// is regarded as the first day of the week set as supplied.  By
    /// default Monday is the first day; with `false`, Sunday is.
    pub fn monday_starts_week(&self, monday_starts_week: bool) -> (c: Config)
        ensures
            c.fields() == (self.fields().0, monday_starts_week, self.fields().2, self.fields().3, self.fields().4, self.fields().5),
    {
        Config { monday_starts_week, ..*self }
    }

    /// Returns a copy of the configuration parameters with the pay period
    /// length in days set as supplied.  The default length is 7 days.
    pub fn pay_period_length(&self, pay_period_length: u32) -> (c: Config)
        ensures
            c.fields() == (self.fields().0, self.fields().1, self.fields().2, pay_period_length, self.fields().4, self.fields().5),
    {
        Config { pay_period_length, ..*self }
    }

    /// Returns a copy of the configuration parameters with the reference
    /// start date of a pay period set as supplied.  Unless it is defined,
    /// expressions containing pay-period vocabulary cannot be interpreted.
    pub fn pay_period_start(&self, pay_period_start: Option<Instant>) -> (c: Config)
        ensures
            c.fields() == (self.fields().0, self.fields().1, self.fields().2, self.fields().3, pay_period_start, self.fields().5),
    {
        Config { pay_period_start, ..*self }
    }

    /// Returns a copy of the configuration parameters with the
    /// `default_to_past` flag set as supplied.  When `true` (the default),
    /// relative expressions like "Friday" and "12:00" name the most recent
    /// such interval in the past; when `false`, the nearest in the future.
    pub fn default_to_past(&self, default_to_past: bool) -> (c: Config)
        ensures
            c.fields() == (self.fields().0, self.fields().1, self.fields().2, self.fields().3, self.fields().4, default_to_past),
    {
        Config { default_to_past, ..*self }
    }
}

/// What the configuration rebuilders yield, field by field.
pub broadcast proof fn lemma_spec_with(c: Config, n: Instant, p: Period)
    ensures
        (#[trigger] c.spec_with(n, p)).fields() == (
            n,
            c.spec_monday_starts_week(),
            p,
            c.spec_pay_period_length(),
            c.spec_pay_period_start(),
            c.spec_default_to_past(),
        ),
{
}

/// What replacing the week-start flag yields, field by field.
pub broadcast proof fn lemma_spec_with_monday(c: Config, monday: bool)
    ensures
        (#[trigger] c.spec_with_monday(monday)).fields() == (
            c.spec_now(),
            monday,
            c.spec_period(),
            c.spec_pay_period_length(),
            c.spec_pay_period_start(),
            c.spec_default_to_past(),
        ),
{
}

/// What a fresh configuration holds, field by field.
pub broadcast proof fn lemma_fresh_config(n: Instant, p: Period)
    ensures
        (#[trigger] Config::fresh_config(n, p)).fields() == (
            n,
            true,
            p,
            7u32,
            None::<Instant>,
            true,
        ),
{
}

} // verus!
