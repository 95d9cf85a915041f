use publo::config::{
    default_workspace_display_name, normalize_workspace_id, resolve_runtime_paths,
    resolve_runtime_paths_for_workspace, EnvSnapshot, RuntimePaths,
};
use publo::note::extract_publish_text;
use publo::platforms::ensure_x_required_scopes;
use publo::errors::AppError;
use publo::jobs::{cancel_stored_job, dry_run_report, JobState, JobStatus};
use publo::oauth::{generate_state, text_from_draws};
use publo::paths::path_has_parent_dir;
use publo::publish::has_allowed_media_extension;
use publo::setup::set_default_workspace_in_global_config;
use publo::substack::image_mime;

fn fields(p: &RuntimePaths) -> Vec<String> {
    vec![
        p.publo_home.clone(),
        p.global_config_path.clone(),
        p.workspace_key.clone(),
        p.workspace_dir.clone(),
        p.workspace_config_path.clone(),
        p.env_path.clone(),
        p.runtime_dir.clone(),
        p.db_default_path.clone(),
        p.publish_log_path.clone(),
        p.linkedin_oauth_state_path.clone(),
        p.x_oauth_state_path.clone(),
    ]
}

#[test]
fn workspace_keys_are_clean_and_stable() {
    for input in ["  My Blog!! 2026 ", "--", "", "a__b", "Client--X", "ÉCOLE", "x"] {
        let key = normalize_workspace_id(input);
        assert!(!key.is_empty());
        assert!(key.chars().all(|c| c.is_ascii_lowercase() || c.is_ascii_digit() || c == '-'));
        assert!(!key.starts_with('-') && !key.ends_with('-') && !key.contains("--"));
        assert_eq!(normalize_workspace_id(&key), key);
    }
    assert_eq!(normalize_workspace_id("!!! ???"), "default");
}

#[test]
fn display_names_lead_back_to_their_keys() {
    assert_eq!(default_workspace_display_name("acme-client"), "Acme Client");
    assert_eq!(default_workspace_display_name("my-personal-workspace"), "My Personal Workspace");
    assert_eq!(default_workspace_display_name("default"), "Default");
    for key in ["acme-client", "my-personal-workspace", "default", "blog-2026", "9lives"] {
        assert_eq!(normalize_workspace_id(&default_workspace_display_name(key)), key);
    }
}

#[test]
fn setting_the_default_workspace_twice_is_setting_it_once() {
    for raw in [
        "",
        "[output]\npretty_json = true\n",
        "[workspace]\ndefault = \"old\"\n[api]\nport = 1\n",
        "[workspace]\n# no default yet",
        "title = 1",
        "[workspace]\nx\r",
    ] {
        let once = set_default_workspace_in_global_config(raw, "blog");
        let twice = set_default_workspace_in_global_config(&once, "blog");
        assert_eq!(twice, once);
        assert_eq!(once.ends_with('\n'), raw.ends_with('\n'));
    }
}

#[test]
fn publish_text_ignores_what_precedes_the_last_separator() {
    let body = "  Hello ![[a.png]] world\n";
    assert_eq!(extract_publish_text(&format!("draft notes\n---\n{body}")), extract_publish_text(body));
    assert_eq!(extract_publish_text(&format!("---\n{body}")), "Hello  world");
    let text = extract_publish_text("a\n---\n  b  \n");
    assert_eq!(text.trim(), text);
}

#[test]
fn required_x_scopes_are_added_once() {
    let once = ensure_x_required_scopes("offline.access tweet.read");
    assert_eq!(once, "offline.access tweet.read tweet.write users.read media.write");
    assert_eq!(ensure_x_required_scopes(&once), once);
    let spaced = ensure_x_required_scopes("  a\tb  ");
    assert_eq!(spaced.split(' ').collect::<Vec<_>>(), vec!["a", "b", "tweet.read", "tweet.write", "users.read", "media.write", "offline.access"]);
}

#[test]
fn naming_a_workspace_is_selecting_it() {
    let env = |workspace: Option<&str>| EnvSnapshot {
        home: Some("/h".to_string()),
        cwd: None,
        publo_home: None,
        publo_config: None,
        publo_workspace: workspace.map(str::to_string),
        publo_env: None,
    };
    let named_env = env(None);
    let selected_env = env(Some("  Acme Client "));
    let named = resolve_runtime_paths_for_workspace("  Acme Client ", &named_env);
    let selected = resolve_runtime_paths(&selected_env, &Some("other".to_string()));
    assert_eq!(fields(&named), fields(&selected));
    assert_eq!(named.workspace_key, "acme-client");
}

fn job(status: JobStatus, run_at: Option<&str>, started: Option<&str>) -> JobState {
    JobState {
        status,
        run_at_utc: run_at.map(str::to_string),
        deleted: false,
        attempt_count: if started.is_some() { 1 } else { 0 },
        claim_token: started.map(|_| "t".to_string()),
        publishing_started_at: started.map(str::to_string),
        status_reason: None,
        last_error_type: None,
        last_error_message: None,
        last_http_status: None,
    }
}

#[test]
fn dry_run_report_counts_due_publishable_blocked_and_interrupted() {
    let now = "2026-03-01T10:00:00+00:00";
    let cutoff = "2026-03-01T09:55:00+00:00";
    let jobs = vec![
        job(JobStatus::Scheduled, Some("2026-03-01T09:00:00+00:00"), None),
        job(JobStatus::Scheduled, Some("2026-03-01T09:30:00+00:00"), None),
        job(JobStatus::Scheduled, Some("2026-03-01T11:00:00+00:00"), None),
        job(JobStatus::Publishing, Some("2026-03-01T08:00:00+00:00"), Some("2026-03-01T09:00:00+00:00")),
        job(JobStatus::Publishing, Some("2026-03-01T08:00:00+00:00"), Some("2026-03-01T09:58:00+00:00")),
    ];
    let r = dry_run_report(&jobs, now, cutoff, &vec![true, false, true, false, false]);
    assert_eq!(r.due_count, 2);
    assert_eq!(r.publishable_count, 1);
    assert_eq!(r.blocked_count, 1);
    assert_eq!(r.interrupted_count, 1);
    assert_eq!(jobs[0].status, JobStatus::Scheduled);
    assert_eq!(jobs[3].status, JobStatus::Publishing);
}

#[test]
fn parent_directory_components_are_found() {
    assert!(path_has_parent_dir("notes/../secret.md"));
    assert!(path_has_parent_dir(".."));
    assert!(!path_has_parent_dir("notes/a..b.md"));
    assert!(!path_has_parent_dir("./notes/a.md"));
}

#[test]
fn note_images_follow_the_media_rule() {
    for path in ["a.png", "B.JPG", "c.jpeg", "d.gif", "e", "f.webp", "g.PnG"] {
        assert_eq!(image_mime(path).is_ok(), has_allowed_media_extension(path));
    }
    assert_eq!(image_mime("B.JPG").unwrap(), "image/jpeg");
    assert_eq!(image_mime("g.PnG").unwrap(), "image/png");
}

#[test]
fn canceling_a_missing_job_is_refused() {
    match cancel_stored_job(&None, None) {
        Err(AppError::Validation { message, .. }) => assert_eq!(message, "No cancelable job found for this id."),
        other => panic!("unexpected: {other:?}"),
    }
    let canceled = cancel_stored_job(&Some(job(JobStatus::Failed, None, None)), None).expect("canceled");
    assert_eq!(canceled.status, JobStatus::Canceled);
    assert_eq!(canceled.status_reason.as_deref(), Some("canceled manually"));
}

#[test]
fn drawn_indices_pick_the_charset_characters() {
    assert_eq!(text_from_draws("ABC", &vec![2, 0, 1, 1]), "CABB");
    assert_eq!(text_from_draws("xyz", &vec![]), "");
    let state = generate_state(32);
    assert_eq!(state.chars().count(), 32);
    assert!(state.chars().all(|c| c.is_ascii_alphanumeric()));
}
