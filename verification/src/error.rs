//! The ways a time expression can fail to resolve.

use vstd::prelude::*;
use vstd::string::StringExecFns;

verus! {

/// Discriminant of a resolution failure, without the descriptive text.
#[derive(Clone, Copy, PartialEq, Eq, Structural, Debug)]
pub enum ErrKind {
    /// The phrase is not recognized by the grammar.
    Parse,
    /// A range's end precedes its start.
    Misordered,
    /// The phrase names a date the calendar does not contain.
    ImpossibleDate,
    /// An explicit weekday disagrees with the weekday of the date.
    Weekday,
    /// Pay-period vocabulary was used without a configured reference start.
    NoPayPeriod,
}

/// A simple categorization of things that could go wrong.
///
/// Every error carries a descriptive string that can be displayed.
#[derive(Debug, Clone)]
pub enum TimeError {
    /// The time expression cannot be parsed by the available grammar.
    Parse(String),
    /// The time expression is a range whose end precedes its beginning.
    Misordered(String),
    /// The time expression specifies an impossible date, such as the 31st
    /// of September.
    ImpossibleDate(String),
    /// The time expression specifies a weekday different from that of the
    /// date named by the rest of the expression.
    Weekday(String),
    /// The time expression refers to a pay period, but no reference pay
    /// period start date has been provided.
    NoPayPeriod(String),
}

/// The discriminant of an error.
pub open spec fn kind_of(e: TimeError) -> ErrKind {
    match e {
        TimeError::Parse(_) => ErrKind::Parse,
        TimeError::Misordered(_) => ErrKind::Misordered,
        TimeError::ImpossibleDate(_) => ErrKind::ImpossibleDate,
        TimeError::Weekday(_) => ErrKind::Weekday,
        TimeError::NoPayPeriod(_) => ErrKind::NoPayPeriod,
    }
}

/// The descriptive text carried by an error.
pub open spec fn text_of(e: TimeError) -> Seq<char> {
    match e {
        TimeError::Parse(s) => s@,
        TimeError::Misordered(s) => s@,
        TimeError::ImpossibleDate(s) => s@,
        TimeError::Weekday(s) => s@,
        TimeError::NoPayPeriod(s) => s@,
    }
}

impl TimeError {
    /// Extracts the error message.
    pub fn msg(&self) -> (m: &str)
        ensures
            m@ == text_of(*self),
    {
        match self {
            TimeError::Parse(s) => s.as_str(),
            TimeError::Misordered(s) => s.as_str(),
            TimeError::ImpossibleDate(s) => s.as_str(),
            TimeError::Weekday(s) => s.as_str(),
            TimeError::NoPayPeriod(s) => s.as_str(),
        }
    }
}

/// The fixed message text used for each kind of error.
pub open spec fn message_of(k: ErrKind) -> Seq<char> {
    match k {
        ErrKind::Parse => "the phrase is not a recognizable time expression"@,
        ErrKind::Misordered => "the end of the range precedes its start"@,
        ErrKind::ImpossibleDate => "no such calendar date exists"@,
        ErrKind::Weekday => "the stated weekday does not match the date"@,
        ErrKind::NoPayPeriod => "no pay period start date is configured"@,
    }
}

/// The text of the parse error that names the phrase it rejects.
pub open spec fn parse_message(phrase: Seq<char>) -> Seq<char> {
    "could not parse \""@ + phrase + "\" as a time expression"@
}

/// Builds the parse error whose message names the rejected phrase.
pub(crate) fn parse_error_for(phrase: &str) -> (e: TimeError)
    ensures
        kind_of(e) == ErrKind::Parse,
        text_of(e) == parse_message(phrase@),
{
    let msg = String::from_str("could not parse \"").concat(phrase).concat(
        "\" as a time expression",
    );
    TimeError::Parse(msg)
}

/// Builds the public error value for a failure kind.
pub(crate) fn error_from_kind(k: ErrKind) -> (e: TimeError)
    ensures
        kind_of(e) == k,
        text_of(e) == message_of(k),
{
    match k {
        ErrKind::Parse => TimeError::Parse(
            String::from_str("the phrase is not a recognizable time expression"),
        ),
        ErrKind::Misordered => TimeError::Misordered(
            String::from_str("the end of the range precedes its start"),
        ),
        ErrKind::ImpossibleDate => TimeError::ImpossibleDate(
            String::from_str("no such calendar date exists"),
        ),
        ErrKind::Weekday => TimeError::Weekday(
            String::from_str("the stated weekday does not match the date"),
        ),
        ErrKind::NoPayPeriod => TimeError::NoPayPeriod(
            String::from_str("no pay period start date is configured"),
        ),
    }
}

} // verus!
