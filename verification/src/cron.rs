//! The cron expression evaluator.

use vstd::prelude::*;
use crate::clock::Instant;

verus! {

/// Why no next fire instant could be given.
#[derive(Debug, Clone, Copy, PartialEq, Eq, Structural)]
pub enum ScheduleError {
    /// The text is not a five-field cron expression, or it can never match.
    InvalidExpression,
    /// The expression is fine, but its next match lies beyond the last
    /// representable instant.
    OutOfRange,
}

/// The error of `cron_parser`, carried through as it is: nothing is known
/// of what it holds.
#[verifier::external_type_specification]
#[verifier::external_body]
pub struct ExParseError(cron_parser::ParseError);

/// What `cron_parser::parse` finds for an expression and a reference instant:
/// `Some(t)` when it returns the occurrence lying `t` nanoseconds after the
/// Unix epoch, `None` when it returns an error.
pub uninterp spec fn cron_occurrence(expression: Seq<char>, reference: int) -> Option<int>;

/// Asks `cron_parser` for the first match of `expression` strictly after
/// `reference`, both taken in UTC.
///
/// Trusted: the body calls `cron_parser::parse` on the `DateTime<Utc>` that
/// `DateTime::from_timestamp_nanos` builds, and hands the occurrence back
/// through `DateTime::timestamp_nanos_opt`, which is `None` outside the range
/// of an `i64`. The contract names the result, and claims of it only what the
/// crate documents: an occurrence lies strictly after the reference.
#[verifier::external_body]
pub(crate) fn parse_after(expression: &str, reference: Instant) -> (found: Result<
    Option<Instant>,
    cron_parser::ParseError,
>)
    ensures
        found is Err <==> cron_occurrence(expression@, reference as int) is None,
        found is Ok ==> cron_occurrence(expression@, reference as int)->0 > reference,
        match found {
            Ok(Some(next)) => cron_occurrence(expression@, reference as int) == Some(next as int),
            Ok(None) => cron_occurrence(expression@, reference as int)->0 > i64::MAX,
            Err(_) => true,
        },
{
    let after = chrono::DateTime::from_timestamp_nanos(reference);
    match cron_parser::parse(expression, &after) {
        Ok(next) => Ok(next.timestamp_nanos_opt()),
        Err(error) => Err(error),
    }
}

/// The next fire instant of an expression after a reference instant, in terms
/// of what the cron library finds.
pub open spec fn next_fire_of(expression: Seq<char>, reference: Instant) -> Result<
    Instant,
    ScheduleError,
> {
    match cron_occurrence(expression, reference as int) {
        None => Err(ScheduleError::InvalidExpression),
        Some(t) => if t <= i64::MAX {
            Ok(t as i64)
        } else {
            Err(ScheduleError::OutOfRange)
        },
    }
}

/// Turns the answer of the cron library into a fire instant or an error.
pub fn interpret(found: Result<Option<Instant>, cron_parser::ParseError>) -> (result: Result<
    Instant,
    ScheduleError,
>)
    ensures
        result == match found {
            Ok(Some(next)) => Ok::<Instant, ScheduleError>(next),
            Ok(None) => Err(ScheduleError::OutOfRange),
            Err(_) => Err(ScheduleError::InvalidExpression),
        },
{
    match found {
        Ok(Some(next)) => Ok(next),
        Ok(None) => Err(ScheduleError::OutOfRange),
        Err(_) => Err(ScheduleError::InvalidExpression),
    }
}

/// The first instant strictly after `reference` that the five-field cron
/// `expression` (minute, hour, day of month, month, day of week) matches.
pub fn next_fire(expression: &str, reference: Instant) -> (result: Result<Instant, ScheduleError>)
    ensures
        result == next_fire_of(expression@, reference),
        result matches Ok(next) ==> next > reference,
{
    interpret(parse_after(expression, reference))
}

/// The evaluator is a function: asked twice about the same expression and
/// the same reference instant, it gives the same answer.
pub proof fn next_fire_is_deterministic(
    expression: Seq<char>,
    reference: Instant,
    first: Result<Instant, ScheduleError>,
    second: Result<Instant, ScheduleError>,
)
    requires
        first == next_fire_of(expression, reference),
        second == next_fire_of(expression, reference),
    ensures
        first == second,
{
}

} // verus!
