//! Times as the job database stores them: RFC 3339 text in UTC, through
//! `chrono`; what `chrono` makes of a time is named, not restated.
use vstd::prelude::*;

use crate::errors::{is_io, is_validation, validation, AppError};
use crate::text::concat2;

verus! {

/// What `chrono` makes of an RFC 3339 time: the same instant in UTC as RFC
/// 3339 text, or the text of its parse error.
pub uninterp spec fn spec_rfc3339_to_utc(input: Seq<char>) -> Result<Seq<char>, Seq<char>>;

/// What `chrono` makes of an RFC 3339 time moved `minutes` earlier, as RFC
/// 3339 text, or the text of its parse error.
pub uninterp spec fn spec_rfc3339_minutes_before(input: Seq<char>, minutes: i64) -> Result<Seq<char>, Seq<char>>;

/// `chrono::DateTime::parse_from_rfc3339(input)` converted to UTC with
/// `to_rfc3339`, or the `Display` text of the parse error. The contract
/// names the result only.
#[verifier::external_body]
fn rfc3339_to_utc(input: &str) -> (r: Result<String, String>)
    ensures
        match r {
            Ok(s) => spec_rfc3339_to_utc(input@) == Ok::<Seq<char>, Seq<char>>(s@),
            Err(m) => spec_rfc3339_to_utc(input@) == Err::<Seq<char>, Seq<char>>(m@),
        },
{
    match chrono::DateTime::parse_from_rfc3339(input) {
        Ok(dt) => Ok(dt.with_timezone(&chrono::Utc).to_rfc3339()),
        Err(err) => Err(err.to_string()),
    }
}

/// `chrono::DateTime::parse_from_rfc3339(input)` minus `minutes` minutes,
/// with `to_rfc3339`, or the `Display` text of the parse error. A parsed
/// time lies in the years 0 to 9999, so an hour earlier is still in range.
/// The contract names the result only.
#[verifier::external_body]
fn rfc3339_minutes_before(input: &str, minutes: i64) -> (r: Result<String, String>)
    requires
        0 <= minutes <= 60,
    ensures
        match r {
            Ok(s) => spec_rfc3339_minutes_before(input@, minutes) == Ok::<Seq<char>, Seq<char>>(s@),
            Err(m) => spec_rfc3339_minutes_before(input@, minutes) == Err::<Seq<char>, Seq<char>>(m@),
        },
{
    match chrono::DateTime::parse_from_rfc3339(input) {
        Ok(dt) => Ok((dt - chrono::TimeDelta::minutes(minutes)).to_rfc3339()),
        Err(err) => Err(err.to_string()),
    }
}

/// The `--at` of a job command as stored: the same instant in UTC; an
/// input that is not RFC 3339 is refused.
pub fn parse_run_at_to_utc(input: &str) -> (r: Result<String, AppError>)
    ensures
        match spec_rfc3339_to_utc(input@) {
            Ok(s) => r matches Ok(t) && t@ == s,
            Err(m) => r matches Err(e) && is_validation(
                e,
                "Invalid --at datetime. Expected RFC3339. Parse error: "@ + m,
                Some("Use format like 2026-08-21T10:30:00+03:30 or 2026-08-21T07:00:00Z."@),
                None,
            ),
        },
{
    match rfc3339_to_utc(input) {
        Ok(s) => Ok(s),
        Err(m) => {
            let message = concat2("Invalid --at datetime. Expected RFC3339. Parse error: ", m.as_str());
            Err(
                validation(
                    message,
                    Some("Use format like 2026-08-21T10:30:00+03:30 or 2026-08-21T07:00:00Z."),
                    None,
                ),
            )
        },
    }
}

/// The `at` of a GUI schedule as stored: the same instant in UTC, or the
/// message of a time that is not RFC 3339.
pub fn parse_gui_run_at(input: &str) -> (r: Result<String, String>)
    ensures
        match spec_rfc3339_to_utc(input@) {
            Ok(s) => r matches Ok(t) && t@ == s,
            Err(m) => r matches Err(t) && t@ == "Invalid datetime format. Expected RFC3339: "@ + m,
        },
{
    match rfc3339_to_utc(input) {
        Ok(s) => Ok(s),
        Err(m) => Err(concat2("Invalid datetime format. Expected RFC3339: ", m.as_str())),
    }
}

/// How long a worker's claim lasts: 5 minutes.
pub const WORKER_CLAIM_EXPIRY_MINUTES: i64 = 5;

/// The time before which a worker's claim has expired, at `now`.
pub fn worker_claim_cutoff(now: &str) -> (r: Result<String, AppError>)
    ensures
        match spec_rfc3339_minutes_before(now@, 5) {
            Ok(s) => r matches Ok(t) && t@ == s,
            Err(m) => r matches Err(e) && is_io(e, "Failed to parse worker clock: "@ + m),
        },
{
    match rfc3339_minutes_before(now, WORKER_CLAIM_EXPIRY_MINUTES) {
        Ok(s) => Ok(s),
        Err(m) => {
            let message = concat2("Failed to parse worker clock: ", m.as_str());
            Err(AppError::Io { message })
        },
    }
}

} // verus!
