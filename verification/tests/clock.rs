use publo::clock::{parse_gui_run_at, parse_run_at_to_utc, worker_claim_cutoff};
use publo::errors::AppError;

#[test]
fn run_times_are_stored_in_utc() {
    assert_eq!(
        parse_run_at_to_utc("2026-08-21T10:30:00+03:30").ok().as_deref(),
        Some("2026-08-21T07:00:00+00:00")
    );
    assert_eq!(parse_run_at_to_utc("2026-08-21T07:00:00Z").ok().as_deref(), Some("2026-08-21T07:00:00+00:00"));
    match parse_run_at_to_utc("tomorrow") {
        Err(AppError::Validation { message, suggestion, .. }) => {
            assert!(message.starts_with("Invalid --at datetime. Expected RFC3339. Parse error: "));
            assert_eq!(
                suggestion.as_deref(),
                Some("Use format like 2026-08-21T10:30:00+03:30 or 2026-08-21T07:00:00Z.")
            );
        }
        other => panic!("unexpected: {other:?}"),
    }
    assert_eq!(parse_gui_run_at("2026-01-01T01:00:00+01:00").ok().as_deref(), Some("2026-01-01T00:00:00+00:00"));
    assert!(parse_gui_run_at("x").unwrap_err().starts_with("Invalid datetime format. Expected RFC3339: "));
}

#[test]
fn worker_claims_expire_after_five_minutes() {
    assert_eq!(
        worker_claim_cutoff("2026-03-01T10:00:00+00:00").ok().as_deref(),
        Some("2026-03-01T09:55:00+00:00")
    );
    match worker_claim_cutoff("not a time") {
        Err(AppError::Io { message }) => assert!(message.starts_with("Failed to parse worker clock: ")),
        other => panic!("unexpected: {other:?}"),
    }
}
