use publo::commands::{
    select_display_name, validate_publish_pass, validate_serve_requirements,
    validate_workspace_switch, PathState,
};
use publo::config::{load_config, resolve_runtime_paths_for_workspace, EnvSnapshot, RuntimeConfig};
use publo::errors::{http_error_suggestion, missing_auth, AppError};
use publo::json::JsonValue;

fn config() -> RuntimeConfig {
    let snap = EnvSnapshot {
        home: Some("/h".to_string()),
        cwd: None,
        publo_home: None,
        publo_config: None,
        publo_workspace: None,
        publo_env: None,
    };
    load_config(resolve_runtime_paths_for_workspace("w", &snap), &None, &None, &snap)
}

fn validation_parts(e: AppError) -> (String, Option<String>, Option<String>) {
    match e {
        AppError::Validation { message, suggestion, command } => (message, suggestion, command),
        other => panic!("not a validation error: {other:?}"),
    }
}

fn object(members: &[(&str, &str)]) -> JsonValue {
    JsonValue::Object(
        members.iter().map(|(k, v)| (k.to_string(), JsonValue::Str(v.to_string()))).collect(),
    )
}

#[test]
fn publish_password_must_be_given_and_match() {
    let mut cfg = config();
    cfg.publish_cli_password = Some("s3cret".to_string());
    assert!(validate_publish_pass(Some("s3cret"), &cfg).is_ok());

    let (msg, suggestion, command) = validation_parts(validate_publish_pass(None, &cfg).unwrap_err());
    assert_eq!(msg, "Missing publish password.");
    assert_eq!(suggestion.as_deref(), Some("Pass --pass <publish-pass> for real publish commands."));
    assert_eq!(command, None);

    let (msg, _, _) = validation_parts(validate_publish_pass(Some("other"), &cfg).unwrap_err());
    assert_eq!(msg, "Invalid publish password.");

    cfg.publish_cli_password = None;
    let (msg, _, _) = validation_parts(validate_publish_pass(Some("s3cret"), &cfg).unwrap_err());
    assert_eq!(msg, "Invalid publish password.");
}

#[test]
fn serve_needs_configs_and_directory_roots() {
    let mut cfg = config();
    let global = cfg.paths.global_config_path.clone();
    let (msg, _, command) =
        validation_parts(validate_serve_requirements(&cfg, false, true, &vec![]).unwrap_err());
    assert_eq!(msg, format!("Global config not found: {global}"));
    assert_eq!(command.as_deref(), Some("publo init"));

    let (msg, _, _) =
        validation_parts(validate_serve_requirements(&cfg, true, false, &vec![]).unwrap_err());
    assert!(msg.starts_with("Workspace config not found for workspace 'w': "));

    let (msg, _, command) =
        validation_parts(validate_serve_requirements(&cfg, true, true, &vec![]).unwrap_err());
    assert_eq!(msg, "No catalog roots configured.");
    assert_eq!(command.as_deref(), Some("publo paths"));

    cfg.catalog_roots = vec!["/notes".to_string(), "/file.md".to_string(), "/gone".to_string()];
    let ok = PathState { exists: true, is_dir: true };
    let file = PathState { exists: true, is_dir: false };
    let gone = PathState { exists: false, is_dir: false };
    let (msg, suggestion, _) = validation_parts(
        validate_serve_requirements(&cfg, true, true, &vec![ok, file, gone]).unwrap_err(),
    );
    assert_eq!(msg, "Catalog root is not a directory: /file.md");
    assert_eq!(suggestion.as_deref(), Some("Use directory paths in [catalog].roots and retry."));

    let ok = PathState { exists: true, is_dir: true };
    let gone = PathState { exists: false, is_dir: false };
    let file = PathState { exists: true, is_dir: false };
    let (msg, _, _) = validation_parts(
        validate_serve_requirements(&cfg, true, true, &vec![ok, gone, file]).unwrap_err(),
    );
    assert_eq!(msg, "Catalog root does not exist: /file.md");

    let all_ok = vec![
        PathState { exists: true, is_dir: true },
        PathState { exists: true, is_dir: true },
        PathState { exists: true, is_dir: true },
    ];
    assert!(validate_serve_requirements(&cfg, true, true, &all_ok).is_ok());
}

#[test]
fn workspace_switch_needs_both_configs() {
    let (msg, _, command) = validation_parts(
        validate_workspace_switch("blog", "/h/blog/config.toml", false, "/h/config.toml", true)
            .unwrap_err(),
    );
    assert_eq!(msg, "Workspace 'blog' does not exist. Expected config at /h/blog/config.toml");
    assert_eq!(command.as_deref(), Some("publo init --workspace-id <id> --display-name \"Name\""));

    let (msg, suggestion, _) = validation_parts(
        validate_workspace_switch("blog", "/h/blog/config.toml", true, "/h/config.toml", false)
            .unwrap_err(),
    );
    assert_eq!(msg, "Global config not found: /h/config.toml");
    assert_eq!(suggestion.as_deref(), Some("Run `publo init` first."));

    assert!(validate_workspace_switch("blog", "/a", true, "/b", true).is_ok());
}

#[test]
fn display_name_is_trimmed_or_defaulted() {
    assert_eq!(select_display_name("  My Blog  ", "Default"), "My Blog");
    assert_eq!(select_display_name(" \t ", "Default"), "Default");
    assert_eq!(select_display_name("", "Blog"), "Blog");
}

#[test]
fn http_suggestions_follow_local_hints_and_status() {
    let over = JsonValue::Object(vec![
        ("local_hint".to_string(), JsonValue::Str("x_likely_over_length".to_string())),
        ("local_weighted_length".to_string(), JsonValue::UInt(301)),
    ]);
    assert_eq!(
        http_error_suggestion(Some(403), &Some(over)),
        "X API returned generic forbidden, but local check indicates over length (weighted 301 > 280). Shorten text and retry."
    );
    let cashtags = JsonValue::Object(vec![
        ("local_hint".to_string(), JsonValue::Str("x_likely_cashtag_limit".to_string())),
        ("local_cashtag_count".to_string(), JsonValue::UInt(3)),
    ]);
    assert_eq!(
        http_error_suggestion(None, &Some(cashtags)),
        "X API returned generic forbidden, but local check indicates cashtag limit (3 found; API self-serve allows max 1). Reduce cashtags and retry."
    );
    assert_eq!(
        http_error_suggestion(Some(402), &Some(object(&[("detail", "Your Credits Depleted now")]))),
        "X API credits are depleted for this app/project. Enable billing or upgrade access in X Developer Portal, then retry publish."
    );
    assert_eq!(
        http_error_suggestion(Some(403), &Some(object(&[("detail", "You may post a Maximum of one cashtag")]))),
        "X API rejected the post due to cashtag limit (max 1 cashtag in API self-serve mode). Reduce cashtags to one and retry."
    );
    assert_eq!(
        http_error_suggestion(Some(403), &Some(object(&[("detail", "Text is TOO LONG")]))),
        "X API rejected post length. Shorten text to fit API weighted 280-character rules, then retry."
    );
    assert_eq!(
        http_error_suggestion(
            Some(403),
            &Some(object(&[("type", "https://api.x.com/2/problems/not-authorized-for-resource")]))
        ),
        "Request is not authorized for this API resource. Verify app/project access level and OAuth scopes for this endpoint."
    );
    assert_eq!(
        http_error_suggestion(Some(403), &None),
        "Request is forbidden by provider policy/settings. Verify app permissions, user scopes, and product access for this endpoint."
    );
    assert_eq!(
        http_error_suggestion(Some(500), &None),
        "Inspect api_error for provider details and retry when resolved."
    );
    assert_eq!(
        http_error_suggestion(Some(402), &Some(object(&[("detail", "other")]))),
        "Inspect api_error for provider details and retry when resolved."
    );
}

#[test]
fn missing_auth_keeps_its_texts() {
    match missing_auth("No token.".to_string(), Some("Log in."), Some("publo auth x login")) {
        AppError::MissingAuth { message, suggestion, command } => {
            assert_eq!(message, "No token.");
            assert_eq!(suggestion.as_deref(), Some("Log in."));
            assert_eq!(command.as_deref(), Some("publo auth x login"));
        }
        other => panic!("unexpected error: {other:?}"),
    }
}
