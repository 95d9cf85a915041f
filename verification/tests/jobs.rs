use publo::config::{load_config, resolve_runtime_paths_for_workspace, EnvSnapshot, RuntimeConfig};
use publo::errors::AppError;
use publo::jobs::{
    cancel_job, check_foreign_rows, check_workspace_identity, claim_due_job, claim_expired,
    dedup_platforms, finish_worker_job_error, finish_worker_job_success, parse_job_status,
    parse_platform_arg, publish_mode_for_platform, reconcile_expired_claim, removable_status,
    text_le, unschedule_job, validate_status_filter, IdentityCheck, JobState, JobStatus,
    OperatorArg, PlatformArg, WorkerFailure,
};
use publo::jobs::{execute_claimed_job, oldest_due_job, WorkerOutcome};

fn worker_config() -> RuntimeConfig {
    let snap = EnvSnapshot {
        home: Some("/h".to_string()),
        cwd: None,
        publo_home: None,
        publo_config: None,
        publo_workspace: None,
        publo_env: None,
    };
    load_config(resolve_runtime_paths_for_workspace("w", &snap), &None, &None, &snap)
}

const NOW: &str = "2026-03-01T10:00:00+00:00";

fn due_job() -> JobState {
    JobState {
        status: JobStatus::Scheduled,
        run_at_utc: Some("2026-03-01T09:00:00+00:00".to_string()),
        deleted: false,
        attempt_count: 0,
        claim_token: None,
        publishing_started_at: None,
        status_reason: None,
        last_error_type: None,
        last_error_message: None,
        last_http_status: None,
    }
}

#[test]
fn worker_claim_and_fake_publish_records_success() {
    let job = due_job();
    let claimed = claim_due_job(&job, "token-1", NOW).expect("job is claimed");
    assert_eq!(claimed.status, JobStatus::Publishing);
    let saved = finish_worker_job_success(&claimed, "token-1");
    assert_eq!(saved.status.as_str(), "published");
    assert_eq!(saved.attempt_count, 1);
    assert!(saved.claim_token.is_none());
    assert!(saved.last_error_type.is_none());
}

#[test]
fn worker_blocks_when_preflight_cannot_read_file() {
    let claimed = claim_due_job(&due_job(), "t", NOW).expect("job is claimed");
    let saved = finish_worker_job_error(
        &claimed,
        "t",
        WorkerFailure::Blocked,
        "io_error",
        "Fake worker could not read missing.md",
        None,
    );
    assert_eq!(saved.status.as_str(), "blocked");
    assert_eq!(saved.attempt_count, 1);
    assert_eq!(saved.last_error_type.as_deref(), Some("io_error"));
}

#[test]
fn worker_records_publish_failures_without_publishing() {
    let claimed = claim_due_job(&due_job(), "t", NOW).expect("job is claimed");
    let saved = finish_worker_job_error(
        &claimed,
        "t",
        WorkerFailure::Failed,
        "http_error",
        "Fake provider temporary failure.",
        Some(503),
    );
    assert_eq!(saved.status.as_str(), "failed");
    assert_eq!(saved.last_error_type.as_deref(), Some("http_error"));
    assert_eq!(saved.last_http_status, Some(503));
    assert_eq!(saved.status_reason.as_deref(), Some("Fake provider temporary failure."));
}

#[test]
fn worker_claim_is_atomic_and_creates_one_attempt() {
    let job = due_job();
    let first = claim_due_job(&job, "first", NOW);
    assert!(first.is_some());
    let claimed = first.unwrap();
    assert!(claim_due_job(&claimed, "second", NOW).is_none());
    assert_eq!(claimed.attempt_count, 1);
    assert_eq!(claimed.claim_token.as_deref(), Some("first"));
}

#[test]
fn interrupted_publish_is_not_automatically_retried() {
    let claimed = claim_due_job(&due_job(), "t", NOW).expect("job is claimed");
    // The worker died before recording completion: a restarted worker sees the job as publishing.
    assert!(claim_due_job(&claimed, "t2", "2099-01-01T00:00:00+00:00").is_none());
    assert_eq!(claimed.status.as_str(), "publishing");
    assert_eq!(claimed.attempt_count, 1);
}

#[test]
fn expired_claim_is_reported_then_reconciled_as_blocked() {
    let claimed = claim_due_job(&due_job(), "t", "2026-03-01T09:50:00+00:00").expect("claimed");
    let cutoff = "2026-03-01T09:55:00+00:00";
    assert!(claim_expired(&claimed, cutoff));
    assert!(!claim_expired(&claimed, "2026-03-01T09:40:00+00:00"));
    let saved = reconcile_expired_claim(&claimed, cutoff);
    assert_eq!(saved.status.as_str(), "blocked");
    assert_eq!(saved.last_error_type.as_deref(), Some("worker_interrupted"));
    assert!(saved.claim_token.is_none());
    let untouched = reconcile_expired_claim(&claimed, "2026-03-01T09:40:00+00:00");
    assert_eq!(untouched.status, JobStatus::Publishing);
}

#[test]
fn database_rejects_rows_for_another_workspace() {
    assert!(check_foreign_rows("jobs", 0).is_ok());
    match check_foreign_rows("jobs", 2) {
        Err(AppError::Validation { message, .. }) => {
            assert_eq!(message, "Database contains 2 jobs record(s) for a different workspace.")
        }
        other => panic!("unexpected: {other:?}"),
    }
    let ids = vec!["ws-a".to_string()];
    assert!(matches!(check_workspace_identity(&ids, "ws-a"), Ok(IdentityCheck::Matches)));
    assert!(matches!(check_workspace_identity(&vec![], "ws-a"), Ok(IdentityCheck::Record)));
    match check_workspace_identity(&ids, "ws-b") {
        Err(AppError::Validation { message, command, .. }) => {
            assert_eq!(message, "Database belongs to workspace ws-a but config declares ws-b.");
            assert_eq!(command.as_deref(), Some("publo paths"));
        }
        other => panic!("unexpected: {other:?}"),
    }
}

#[test]
fn claim_requires_due_scheduled_and_live_job() {
    let mut not_due = due_job();
    not_due.run_at_utc = Some("2026-03-02T00:00:00+00:00".to_string());
    assert!(claim_due_job(&not_due, "t", NOW).is_none());
    let mut deleted = due_job();
    deleted.deleted = true;
    assert!(claim_due_job(&deleted, "t", NOW).is_none());
    let mut ready = due_job();
    ready.status = JobStatus::Ready;
    assert!(claim_due_job(&ready, "t", NOW).is_none());
    let mut no_time = due_job();
    no_time.run_at_utc = None;
    assert!(claim_due_job(&no_time, "t", NOW).is_none());
}

#[test]
fn finishing_under_a_wrong_token_changes_nothing() {
    let claimed = claim_due_job(&due_job(), "right", NOW).expect("claimed");
    let same = finish_worker_job_success(&claimed, "wrong");
    assert_eq!(same.status, JobStatus::Publishing);
    assert_eq!(same.claim_token.as_deref(), Some("right"));
}

#[test]
fn published_job_stays_published() {
    let claimed = claim_due_job(&due_job(), "t", NOW).expect("claimed");
    let published = finish_worker_job_success(&claimed, "t");
    assert!(claim_due_job(&published, "t", "2099-01-01").is_none());
    let again = finish_worker_job_error(&published, "t", WorkerFailure::Failed, "x", "y", None);
    assert_eq!(again.status, JobStatus::Published);
    assert!(unschedule_job(&published, None).is_err());
    assert!(cancel_job(&published, None).is_err());
    assert!(!removable_status(JobStatus::Published));
}

#[test]
fn manual_moves_follow_status_rules() {
    let job = due_job();
    let ready = unschedule_job(&job, None).expect("unschedule");
    assert_eq!(ready.status, JobStatus::Ready);
    assert_eq!(ready.status_reason.as_deref(), Some("unscheduled manually"));
    let canceled = cancel_job(&job, Some("typo".to_string())).expect("cancel");
    assert_eq!(canceled.status, JobStatus::Canceled);
    assert_eq!(canceled.status_reason.as_deref(), Some("typo"));
    match cancel_job(&ready, None) {
        Err(AppError::Validation { message, .. }) => {
            assert_eq!(message, "No cancelable job found for this id.")
        }
        other => panic!("unexpected: {other:?}"),
    }
    assert!(removable_status(JobStatus::Ready));
}

#[test]
fn statuses_and_platforms_round_trip_through_names() {
    for name in ["ready", "scheduled", "publishing", "published", "failed", "blocked", "canceled", "disabled"] {
        assert_eq!(parse_job_status(name).expect("status").as_str(), name);
    }
    assert!(parse_job_status("done").is_none());
    assert!(validate_status_filter(Some("blocked")).is_ok());
    assert!(validate_status_filter(None).is_ok());
    assert!(validate_status_filter(Some("nope")).is_err());
    for p in [PlatformArg::Linkedin, PlatformArg::X] {
        assert_eq!(parse_platform_arg(p.as_str()), Some(p));
    }
    assert_eq!(publish_mode_for_platform(PlatformArg::X), Some("single"));
    assert_eq!(publish_mode_for_platform(PlatformArg::Linkedin), None);
    assert_eq!(OperatorArg::User.as_str(), "user");
    assert_eq!(OperatorArg::Ai.as_str(), "ai");
}

#[test]
fn dedup_keeps_first_occurrence_order() {
    let ps = vec![PlatformArg::X, PlatformArg::Linkedin, PlatformArg::X, PlatformArg::Linkedin];
    assert_eq!(dedup_platforms(&ps), vec![PlatformArg::X, PlatformArg::Linkedin]);
}

#[test]
fn stored_timestamps_compare_as_text() {
    assert!(text_le("2026-01-01", "2026-01-02"));
    assert!(text_le("2026", "2026-01"));
    assert!(!text_le("2026-01-02", "2026-01-01"));
    assert!(text_le("", ""));
}

#[test]
fn schedule_sets_time_or_blocks_with_the_preflight_message() {
    let mut ready = due_job();
    ready.status = JobStatus::Ready;
    ready.run_at_utc = None;
    let scheduled = publo::jobs::schedule_job(&ready, "2026-03-05T08:00:00+00:00", &None);
    assert_eq!(scheduled.status, JobStatus::Scheduled);
    assert_eq!(scheduled.run_at_utc.as_deref(), Some("2026-03-05T08:00:00+00:00"));
    assert!(claim_due_job(&scheduled, "t", "2026-03-05T07:59:59+00:00").is_none());
    assert!(claim_due_job(&scheduled, "t", "2026-03-05T08:00:00+00:00").is_some());
    let err = AppError::Io { message: "Failed to read post file".to_string() };
    let blocked = publo::jobs::schedule_job(&ready, "2026-03-05T08:00:00+00:00", &Some(err));
    assert_eq!(blocked.status, JobStatus::Blocked);
    assert_eq!(blocked.status_reason.as_deref(), Some("Failed to read post file"));
    assert!(blocked.run_at_utc.is_none());
}

#[test]
fn times_are_set_only_where_allowed() {
    let mut blocked = due_job();
    blocked.status = JobStatus::Blocked;
    blocked.status_reason = Some("old".to_string());
    let moved = publo::jobs::set_ready_time(&blocked, "2026-04-01T00:00:00+00:00").expect("decision queue");
    assert_eq!(moved.run_at_utc.as_deref(), Some("2026-04-01T00:00:00+00:00"));
    assert!(moved.status_reason.is_none());
    assert_eq!(moved.status, JobStatus::Blocked);
    assert!(publo::jobs::set_ready_time(&due_job(), "x").is_err());
    let rescheduled = publo::jobs::set_scheduled_time(&due_job(), "2026-04-02T00:00:00+00:00").expect("scheduled");
    assert_eq!(rescheduled.status, JobStatus::Scheduled);
    assert_eq!(rescheduled.run_at_utc.as_deref(), Some("2026-04-02T00:00:00+00:00"));
    match publo::jobs::set_scheduled_time(&blocked, "x") {
        Err(AppError::Validation { message, .. }) => assert_eq!(message, "Only scheduled jobs can be rescheduled."),
        other => panic!("unexpected: {other:?}"),
    }
}

#[test]
fn dry_worker_run_checks_and_counts() {
    let mut cfg = worker_config();
    cfg.publish_cli_password = Some("pw".to_string());
    let db = cfg.db_path.clone();
    assert_eq!(
        publo::jobs::check_worker_run(true, false, true, None, &cfg, true).unwrap(),
        publo::jobs::WorkerMode::DryRun
    );
    assert_eq!(
        publo::jobs::check_worker_run(false, true, true, Some("pw"), &cfg, true).unwrap(),
        publo::jobs::WorkerMode::Live
    );
    for (dry, live, once) in [(false, false, true), (true, true, true), (true, false, false)] {
        match publo::jobs::check_worker_run(dry, live, once, Some("pw"), &cfg, true) {
            Err(AppError::Validation { message, command, .. }) => {
                assert_eq!(
                    message,
                    "Choose one worker mode: `--dry-run --once` or `--live --once --pass <publish-pass>`."
                );
                assert_eq!(command.as_deref(), Some("publo worker run --dry-run --once"));
            }
            other => panic!("unexpected: {other:?}"),
        }
    }
    match publo::jobs::check_worker_run(false, true, true, Some("wrong"), &cfg, true) {
        Err(AppError::Validation { message, .. }) => assert_eq!(message, "Invalid publish password."),
        other => panic!("unexpected: {other:?}"),
    }
    match publo::jobs::check_worker_run(false, true, true, None, &cfg, true) {
        Err(AppError::Validation { message, .. }) => assert_eq!(message, "Missing publish password."),
        other => panic!("unexpected: {other:?}"),
    }
    match publo::jobs::check_worker_run(true, false, true, None, &cfg, false) {
        Err(AppError::Validation { message, .. }) => {
            assert_eq!(message, format!("Worker database does not exist: {db}"))
        }
        other => panic!("unexpected: {other:?}"),
    }
    let c = publo::jobs::dry_run_counts(&vec![true, false, true]);
    assert_eq!((c.due_count, c.publishable_count, c.blocked_count), (3, 2, 1));
    let empty = publo::jobs::dry_run_counts(&vec![]);
    assert_eq!((empty.due_count, empty.publishable_count, empty.blocked_count), (0, 0, 0));
}

#[test]
fn list_limits_and_content_files() {
    assert!(publo::jobs::validate_list_limit(1).is_ok());
    match publo::jobs::validate_list_limit(0) {
        Err(AppError::Validation { message, .. }) => assert_eq!(message, "--limit must be >= 1."),
        other => panic!("unexpected: {other:?}"),
    }
    assert!(publo::commands::check_content_file("/a.md", true).is_ok());
    match publo::commands::check_content_file("/a.md", false) {
        Err(AppError::Validation { message, .. }) => assert_eq!(message, "Content file does not exist: /a.md"),
        other => panic!("unexpected: {other:?}"),
    }
}

fn scheduled_at(run_at: &str) -> JobState {
    let mut job = due_job();
    job.run_at_utc = Some(run_at.to_string());
    job
}

#[test]
fn live_run_claims_the_oldest_due_job() {
    let mut later_created = scheduled_at("2026-03-01T08:00:00+00:00");
    later_created.attempt_count = 0;
    let mut canceled = scheduled_at("2026-03-01T07:00:00+00:00");
    canceled.status = JobStatus::Canceled;
    let jobs = vec![
        scheduled_at("2026-03-01T09:30:00+00:00"),
        later_created,
        scheduled_at("2026-03-01T08:00:00+00:00"),
        canceled,
        scheduled_at("2026-03-01T11:00:00+00:00"),
    ];
    let created = vec![
        "2026-02-01T00:00:00+00:00".to_string(),
        "2026-02-03T00:00:00+00:00".to_string(),
        "2026-02-02T00:00:00+00:00".to_string(),
        "2026-01-01T00:00:00+00:00".to_string(),
        "2026-01-01T00:00:00+00:00".to_string(),
    ];
    assert_eq!(oldest_due_job(&jobs, &created, NOW), Some(2));
    let same = vec![scheduled_at("2026-03-01T08:00:00+00:00"), scheduled_at("2026-03-01T08:00:00+00:00")];
    let same_created = vec!["2026-02-01T00:00:00+00:00".to_string(), "2026-02-01T00:00:00+00:00".to_string()];
    assert_eq!(oldest_due_job(&same, &same_created, NOW), Some(0));
    let not_due = vec![scheduled_at("2026-03-01T11:00:00+00:00")];
    assert_eq!(oldest_due_job(&not_due, &vec!["x".to_string()], NOW), None);
    assert_eq!(oldest_due_job(&vec![], &vec![], NOW), None);
}

#[test]
fn claimed_job_ends_published_failed_or_blocked() {
    let claimed = claim_due_job(&due_job(), "t", NOW).expect("claimed");
    let published = execute_claimed_job(&claimed, "t", &WorkerOutcome::Published);
    assert_eq!(published.job.status, JobStatus::Published);
    assert_eq!(published.job.attempt_count, 1);
    assert_eq!(published.attempt.attempt_no, 1);
    assert!(published.attempt.success);

    let failed = execute_claimed_job(
        &claimed,
        "t",
        &WorkerOutcome::PublishFailed {
            error_type: "http_error".to_string(),
            message: "X API returned 503".to_string(),
            http_status: Some(503),
        },
    );
    assert_eq!(failed.job.status, JobStatus::Failed);
    assert_eq!(failed.job.last_http_status, Some(503));
    assert_eq!(failed.attempt.error_type.as_deref(), Some("http_error"));
    assert!(!failed.attempt.success);

    let blocked = execute_claimed_job(
        &claimed,
        "t",
        &WorkerOutcome::PreflightFailed {
            error_type: "validation_error".to_string(),
            message: "Content file does not exist: /a.md".to_string(),
            http_status: None,
        },
    );
    assert_eq!(blocked.job.status, JobStatus::Blocked);
    assert_eq!(blocked.job.status_reason.as_deref(), Some("Content file does not exist: /a.md"));
    assert!(blocked.job.claim_token.is_none());

    let wrong = execute_claimed_job(&claimed, "other", &WorkerOutcome::Published);
    assert_eq!(wrong.job.status, JobStatus::Publishing);
}
