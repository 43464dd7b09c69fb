//! The cron expression engine: next-occurrence display and best-effort
//! natural-language descriptions. The schedule grammar itself is checked
//! by the verified validator; the clock, the zone table, and the phrase
//! catalogue are the host's, reached through trusted calls whose answers
//! the verified code only routes.

use vstd::prelude::*;

use crate::config::Config;
use crate::schedule::valid_schedule;
use crate::schedule::validate;
use crate::text::contains_seq;
use crate::text::contains_sub;

verus! {

/// The display string for a schedule whose next run cannot be computed.
pub open spec fn invalid_schedule_message() -> Seq<char> {
    "Invalid cron expression"@
}

/// The fixed fallback sentence for schedules the describer cannot handle.
pub open spec fn describe_fallback_message() -> Seq<char> {
    "Unable to parse cron expression into human-readable format."@
}

/// Relies on chrono's clock and zone conversion and on
/// `cron_parser::parse`: the next occurrence of `expr` strictly after the
/// present moment in the zone named `tz`, formatted for display; nothing
/// when the zone name is unknown, the expression is rejected, or no
/// representable occurrence remains. The answer moves with the clock, so
/// only its non-emptiness is promised.
#[verifier::external_body]
fn next_occurrence_from_now(expr: &str, tz: &str) -> (r: Option<String>)
    ensures
        r is Some ==> r->Some_0@.len() > 0,
{
    let zone: chrono_tz::Tz = match tz.parse() {
        Ok(z) => z,
        Err(_) => return None,
    };
    let now = chrono::Utc::now().with_timezone(&zone);
    match cron_parser::parse(expr, &now) {
        Ok(next) => Some(next.to_string()),
        Err(_) => None,
    }
}

/// The next-run column text for an engine outcome: the formatted
/// occurrence itself, or the fixed invalid-schedule message when there is
/// none.
pub fn next_execution_display(next: Option<String>) -> (r: String)
    ensures
        r@ == (match next {
            Some(s) => s@,
            None => invalid_schedule_message(),
        }),
{
    match next {
        Some(s) => s,
        None => String::from_str("Invalid cron expression"),
    }
}

/// The advisory next-run display string for `cron_expr` in the configured
/// time zone: whatever the clock answers, either a non-empty formatted
/// occurrence or the fixed invalid-schedule message.
pub fn get_next_execution(cron_expr: &str, config: &Config) -> (r: String)
    ensures
        r@ == invalid_schedule_message() || r@.len() > 0,
{
    let next = next_occurrence_from_now(cron_expr, config.get_timezone());
    next_execution_display(next)
}

/// Relies on cron_descriptor's `get_description_cron`: a best-effort
/// natural-language sentence for the expression, or nothing when the
/// describer rejects it. The describer's reader splits on whitespace and
/// fails only for fewer than five or more than seven tokens; a
/// well-formed schedule is five tokens of digits and the punctuation
/// `* / - ,`, which that splitting never divides further, so such an
/// expression always yields a sentence. The sentence itself follows the
/// process-wide locale of the describer's phrase catalogue, so nothing
/// is promised of its text.
#[verifier::external_body]
fn describe_with_descriptor(expr: &str) -> (r: Option<String>)
    ensures
        valid_schedule(expr@) ==> r is Some,
{
    cron_descriptor::cronparser::cron_expression_descriptor::get_description_cron(expr).ok()
}

/// Whether the engine renders a sentence for `s` at all: the schedule
/// must be well-formed and free of list values, which the describer's
/// day-of-week handling does not cover.
pub open spec fn describable(s: Seq<char>) -> bool {
    valid_schedule(s) && !contains_seq(s, ","@)
}

/// The sentence shown for a schedule, given the describer's answer.
pub fn describe_result(described: Option<String>) -> (r: String)
    ensures
        r@ == (match described {
            Some(d) => d@,
            None => describe_fallback_message(),
        }),
{
    match described {
        Some(d) => d,
        None => String::from_str("Unable to parse cron expression into human-readable format."),
    }
}

/// A best-effort natural-language description of `cron_expr`. A schedule
/// that is malformed or holds a list value gets the fixed fallback
/// sentence rather than an error; the outcome is always a sentence.
pub fn get_human_readable_cron(cron_expr: &str) -> (r: Result<String, String>)
    ensures
        r is Ok,
        !describable(cron_expr@) ==> r->Ok_0@ == describe_fallback_message(),
{
    if !validate(cron_expr) || contains_sub(cron_expr, ",") {
        Ok(String::from_str("Unable to parse cron expression into human-readable format."))
    } else {
        let described = describe_with_descriptor(cron_expr);
        proof {
            assert(described is Some);
        }
        Ok(describe_result(described))
    }
}

} // verus!
