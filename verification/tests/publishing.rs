use publo::auth::EnvVars;
use publo::config::{load_config, resolve_runtime_paths_for_workspace, EnvSnapshot, RuntimeConfig};
use publo::errors::AppError;
use publo::guard::PublishLogEntry;
use publo::json::JsonValue;
use publo::platforms::{
    linkedin_payload, provider_http_error, should_try_refresh, x_error_with_hint, x_payload,
    x_unauthorized_step,
};
use publo::preflight::{parse_post_input, preflight_job, ParsedPostInput};
use publo::publishing::{
    linkedin_debug_output, prepare_linkedin_publish, prepare_x_publish, success_output, x_debug_output,
    XBypass,
};
use publo::requests::{x_upload_media_id, x_upload_status, XUploadStatus};

fn env(pairs: &[(&str, &str)]) -> EnvVars {
    EnvVars { vars: pairs.iter().map(|(k, v)| (k.to_string(), v.to_string())).collect() }
}

fn config() -> RuntimeConfig {
    let snap = EnvSnapshot {
        home: Some("/h".to_string()),
        cwd: None,
        publo_home: None,
        publo_config: None,
        publo_workspace: None,
        publo_env: None,
    };
    load_config(resolve_runtime_paths_for_workspace("w", &snap), &None, &None, &snap)
}

fn parsed(text: &str, media: usize) -> ParsedPostInput {
    ParsedPostInput {
        publish_text: text.to_string(),
        media_paths: (0..media).map(|i| format!("/m/{i}.png")).collect(),
        file_sha256: "filesha".to_string(),
    }
}

fn linkedin_env() -> EnvVars {
    env(&[("LINKEDIN_ACCESS_TOKEN", "tok"), ("LINKEDIN_AUTHOR_URN", "urn:li:person:1")])
}

#[test]
fn post_input_needs_resolvable_media_and_text() {
    let content = "meta\n---\nHello ![[a.png]]";
    let ok = parse_post_input("/n/post.md", content, &vec![], &vec!["/n/a.png".to_string()]).expect("parsed");
    assert_eq!(ok.publish_text, "Hello");
    assert_eq!(ok.media_paths, vec!["/n/a.png"]);
    match parse_post_input("/n/post.md", content, &vec![], &vec![]) {
        Err(AppError::Validation { message, .. }) => assert_eq!(message, "Referenced media file not found: 'a.png'"),
        other => panic!("unexpected: {other:?}"),
    }
    match parse_post_input("/n/post.md", "x\n---\n![[a.gif]]", &vec![], &vec![]) {
        Err(AppError::Validation { message, .. }) => {
            assert_eq!(message, "Unsupported media extension for 'a.gif'. Allowed: .png, .jpg, .jpeg")
        }
        other => panic!("unexpected: {other:?}"),
    }
    match parse_post_input("/n/post.md", "x\n---\n   ", &vec![], &vec![]) {
        Err(AppError::Validation { message, .. }) => {
            assert_eq!(message, "Post text is empty after removing metadata and image placeholders.")
        }
        other => panic!("unexpected: {other:?}"),
    }
}

#[test]
fn linkedin_plan_escapes_and_fingerprints() {
    let cfg = config();
    let plan = prepare_linkedin_publish(&parsed("Hi (there)", 0), "", &cfg, &linkedin_env(), false, false, false, &vec![])
        .expect("plan");
    assert_eq!(plan.commentary_raw, "Hi (there)");
    assert_eq!(plan.commentary, "Hi \\(there\\)");
    assert!(!plan.signature_applied);
    assert_eq!(plan.fingerprint, publo::guard::compute_fingerprint("linkedin", "urn:li:person:1", "Hi (there)"));
    assert_eq!(plan.text_sha256, publo::guard::text_sha256("Hi (there)"));
    let debug = linkedin_debug_output(&plan, &vec![]);
    assert_eq!(debug.get("mode").and_then(|v| v.as_str()), Some("debug"));
    assert_eq!(debug.get("would_publish").and_then(|v| v.as_bool()), Some(true));

    let log = vec![Ok(PublishLogEntry {
        platform: "linkedin".to_string(),
        author_urn: "urn:li:person:1".to_string(),
        file_path: "/n.md".to_string(),
        fingerprint: plan.fingerprint.clone(),
        file_sha256: "f".to_string(),
        text_sha256: "t".to_string(),
        post_id: Some("p".to_string()),
        post_url: None,
        request_id: None,
        published_at: "then".to_string(),
    })];
    assert!(matches!(
        prepare_linkedin_publish(&parsed("Hi (there)", 0), "", &cfg, &linkedin_env(), false, false, false, &log),
        Err(AppError::DuplicatePublish { .. })
    ));
    assert!(prepare_linkedin_publish(&parsed("Hi (there)", 0), "", &cfg, &linkedin_env(), false, false, true, &log).is_ok());
    assert!(matches!(
        prepare_linkedin_publish(&parsed("Hi", 21), "", &cfg, &linkedin_env(), false, false, false, &vec![]),
        Err(AppError::Validation { .. })
    ));
    assert!(matches!(
        prepare_linkedin_publish(&parsed("Hi", 0), "", &cfg, &env(&[]), false, false, false, &vec![]),
        Err(AppError::MissingAuth { .. })
    ));
}

#[test]
fn x_plan_checks_scope_text_and_bypasses() {
    let cfg = config();
    let e = env(&[("X_ACCESS_TOKEN", "tok")]);
    let none = XBypass { force: false, allow_duplicate: false, allow_cashtag: false, allow_length: false };
    let plan = prepare_x_publish(&parsed("Buy $AAPL", 0), "", &cfg, &e, false, false, &none, &vec![]).expect("plan");
    assert_eq!(plan.author_key, "x:self");
    assert_eq!(plan.cashtag_count, 1);
    assert_eq!(plan.weighted_length, 9);
    let debug = x_debug_output(&plan, &vec![]);
    assert_eq!(debug.get("platform").and_then(|v| v.as_str()), Some("x"));
    match prepare_x_publish(&parsed("Hi", 1), "", &cfg, &e, false, false, &none, &vec![]) {
        Err(AppError::MissingAuth { message, .. }) => assert_eq!(
            message,
            "X media upload requires media.write scope, but current token scope does not include it."
        ),
        other => panic!("unexpected: {:?}", other.map(|p| p.text)),
    }
    assert!(prepare_x_publish(&parsed("$A $B", 0), "", &cfg, &e, false, false, &none, &vec![]).is_err());
    let force = XBypass { force: true, allow_duplicate: false, allow_cashtag: false, allow_length: false };
    let forced = prepare_x_publish(&parsed("$A $B", 0), "", &cfg, &e, false, false, &force, &vec![]).expect("forced");
    assert!(forced.bypass_duplicate);
}

#[test]
fn job_preflight_by_platform() {
    let cfg = config();
    let p = parsed("Hello", 0);
    let li = preflight_job(&Some("linkedin".to_string()), &None, &p, "", &cfg, &linkedin_env()).expect("linkedin");
    assert_eq!(li.file_sha256, "filesha");
    assert_eq!(li.fingerprint, publo::guard::compute_fingerprint("linkedin", "urn:li:person:1", "Hello"));
    let x = preflight_job(&Some("x".to_string()), &Some("single".to_string()), &p, "", &cfg, &env(&[("X_ACCESS_TOKEN", "t")]));
    assert!(x.is_ok());
    match preflight_job(&Some("bsky".to_string()), &None, &p, "", &cfg, &env(&[])) {
        Err(AppError::Validation { message, .. }) => assert_eq!(message, "Unsupported job platform: bsky"),
        other => panic!("unexpected: {:?}", other.map(|r| r.fingerprint)),
    }
}

#[test]
fn payloads_and_success_reports() {
    let x = x_payload("hi", &vec![]);
    assert_eq!(x.get("text").and_then(|v| v.as_str()), Some("hi"));
    assert!(x.get("media").is_none());
    let xm = x_payload("hi", &vec!["1".to_string()]);
    assert!(xm.get("media").and_then(|m| m.get("media_ids")).is_some());
    let li = linkedin_payload("urn:a", "c", &vec!["img".to_string()]);
    assert_eq!(li.get("visibility").and_then(|v| v.as_str()), Some("PUBLIC"));
    assert_eq!(
        li.get("content").and_then(|c| c.get("media")).and_then(|m| m.get("id")).and_then(|v| v.as_str()),
        Some("img")
    );
    let multi = linkedin_payload("urn:a", "c", &vec!["a".to_string(), "b".to_string()]);
    assert!(multi.get("content").and_then(|c| c.get("multiImage")).is_some());
    let out = success_output("x", &Some("1".to_string()), &None, &None, "now");
    assert_eq!(out.get("ok").and_then(|v| v.as_bool()), Some(true));
    assert_eq!(out.get("post_id").and_then(|v| v.as_str()), Some("1"));
    assert!(matches!(out.get("post_url"), Some(JsonValue::Null)));
}

#[test]
fn provider_failures_and_refresh_steps() {
    assert!(should_try_refresh(401));
    assert!(!should_try_refresh(500));
    match provider_http_error("LinkedIn", 503, None) {
        AppError::Http { message, status, retryable, .. } => {
            assert_eq!(message, "LinkedIn API returned 503");
            assert_eq!(status, Some(503));
            assert!(retryable);
        }
        other => panic!("unexpected: {other:?}"),
    }
    let forbidden = Some(JsonValue::Object(vec![("detail".to_string(), JsonValue::string("Forbidden"))]));
    let _ = x_error_with_hint(403, forbidden, 300, 0);
    assert!(x_error_with_hint(500, None, 300, 0).is_none());
    assert!(matches!(x_unauthorized_step(true, &Some("r".to_string()), &Some("c".to_string()), false), Err(AppError::MissingAuth { .. })));
    assert_eq!(
        x_unauthorized_step(false, &Some("r".to_string()), &Some("c".to_string()), true).ok(),
        Some(("c".to_string(), "r".to_string()))
    );
    match x_unauthorized_step(false, &Some("r".to_string()), &None, true) {
        Err(AppError::MissingAuth { message, .. }) => assert_eq!(message, "X_CLIENT_ID is missing."),
        other => panic!("unexpected: {other:?}"),
    }
    assert!(matches!(x_upload_status(401, None), Ok(XUploadStatus::Unauthorized)));
    assert!(matches!(x_upload_status(403, None), Err(AppError::MissingAuth { .. })));
    assert!(matches!(x_upload_status(500, None), Err(AppError::Http { .. })));
    assert_eq!(x_upload_media_id(None, Some("m1".to_string())).ok().as_deref(), Some("m1"));
    assert!(x_upload_media_id(Some(vec![JsonValue::Null]), Some("m1".to_string())).is_err());
    assert!(x_upload_media_id(None, None).is_err());
}
