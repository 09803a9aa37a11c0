//! Resolution of English time expressions into instant intervals.
//!
//! A phrase such as "last Friday", "May 6, 1969" or "Monday through
//! Friday" is recognized by the grammar in `grammar` and resolved by
//! the engine in [`resolve`] into a half-open interval of [`Instant`]s,
//! together with a flag telling whether the phrase was literally a
//! two-sided range.  A [`Config`] supplies the reference moment and the
//! policies that settle ambiguous phrases.

pub mod ast;
pub mod calendar;
pub mod config;
pub mod error;
pub mod grammar;
pub mod laws;
pub mod lexer;
pub mod instant;
pub mod resolve;

pub use crate::ast::TimeExpr;
pub use crate::config::Config;
pub use crate::error::TimeError;
pub use crate::instant::{first_moment, last_moment, Instant};
pub use crate::resolve::resolve;

use vstd::prelude::*;

use crate::config::Period;
use crate::error::ErrKind;
use vstd::string::StringSliceAdditionalSpecFns;

verus! {

/// The configuration a call to [`parse`] resolves against: the one
/// supplied, or the default.
pub open spec fn used_config(config: Option<Config>) -> Config {
    match config {
        Some(c) => c,
        None => Config::fresh_config(Instant::place(0, 0), Period::Minute),
    }
}

/// Converts a time expression into a pair of instants and a flag that
/// tells whether the expression was literally a range, such as "9 to
/// 11", as opposed to "9 AM", say.
///
/// The result is pinned to the grammar and the resolution engine: when
/// the grammar reads the phrase as the expression `e`, the result is
/// exactly the resolution of `e` against the configuration used; when
/// the grammar does not cover the phrase, the result is the parse
/// error, whose message names the phrase.  In particular a phrase that
/// reads as universal vocabulary resolves to the whole of time — from
/// the first moment to the last, not a literal range — whatever the
/// configuration says.
pub fn parse(phrase: &str, config: Option<Config>) -> (r: Result<
    (Instant, Instant, bool),
    TimeError,
>)
    ensures
        ({
            let c = used_config(config);
            match crate::grammar::spec_parse(phrase.spec_bytes()) {
                Some(e) => crate::resolve::outcome_of(r) == crate::resolve::resolve_model(e, c)
                    && (r matches Err(err) ==> crate::error::text_of(err)
                    == crate::error::message_of(crate::error::kind_of(err))),
                None => r matches Err(err) && crate::error::kind_of(err) == ErrKind::Parse
                    && crate::error::text_of(err) == crate::error::parse_message(phrase@),
            }
        }),
        crate::grammar::spec_universal_reading(phrase.spec_bytes()) ==> r == Ok::<
            (Instant, Instant, bool),
            TimeError,
        >(
            (
                Instant::place(crate::calendar::MIN_DAY as int, 0),
                Instant::place(crate::calendar::MAX_DAY as int, 86399999),
                false,
            ),
        ),
{
    let c = match config {
        Some(c) => c,
        None => Config::new(),
    };
    let bytes = vstd::string::StrSliceExecFns::as_bytes_vec(phrase);
    match crate::grammar::parse_expression(bytes.as_slice()) {
        Some(e) => {
            let r = crate::resolve::resolve(&e, &c);
            proof {
                if crate::grammar::spec_universal_reading(phrase.spec_bytes()) {
                    assert(e == TimeExpr::Universal);
                    assert(crate::resolve::resolve_model(e, used_config(config)) == Ok::<
                        (Instant, Instant, bool),
                        crate::error::ErrKind,
                    >(
                        (
                            Instant::place(crate::calendar::MIN_DAY as int, 0),
                            Instant::place(crate::calendar::MAX_DAY as int, 86399999),
                            false,
                        ),
                    ));
                }
            }
            r
        },
        None => Err(crate::error::parse_error_for(phrase)),
    }
}

/// Simply returns whether the given phrase is recognizable as a time
/// expression: exactly when the grammar gives it a reading.
pub fn parsable(phrase: &str) -> (r: bool)
    ensures
        r == (crate::grammar::spec_parse(phrase.spec_bytes()) is Some),
        crate::grammar::spec_universal_reading(phrase.spec_bytes()) ==> r,
{
    let bytes = vstd::string::StrSliceExecFns::as_bytes_vec(phrase);
    crate::grammar::parse_expression(bytes.as_slice()).is_some()
}

} // verus!