use publo::config::{
    load_config, resolve_runtime_paths_for_workspace, EnvSnapshot, RuntimeConfig, SignatureLayer,
};
use publo::errors::AppError;
use publo::guard::{
    attach_publish_metadata, combine_text_and_media_for_fingerprint, compute_fingerprint,
    compute_media_signature, content_sha256, escape_little_text_plain, find_existing_publish,
    maybe_block_duplicate, resolve_signature_text, signature_cli_override, split_words,
    text_sha256, PublishLogEntry, PublishPlatformKind,
};
use publo::json::JsonValue;

fn entry(platform: &str, author: &str, fingerprint: &str, post: &str) -> PublishLogEntry {
    PublishLogEntry {
        platform: platform.to_string(),
        author_urn: author.to_string(),
        file_path: "/n.md".to_string(),
        fingerprint: fingerprint.to_string(),
        file_sha256: "f".to_string(),
        text_sha256: "t".to_string(),
        post_id: Some(post.to_string()),
        post_url: None,
        request_id: None,
        published_at: format!("at-{post}"),
    }
}

fn config() -> RuntimeConfig {
    let env = EnvSnapshot {
        home: Some("/h".to_string()),
        cwd: None,
        publo_home: None,
        publo_config: None,
        publo_workspace: None,
        publo_env: None,
    };
    load_config(resolve_runtime_paths_for_workspace("w", &env), &None, &None, &env)
}

#[test]
fn sha256_digests_match_known_values() {
    assert_eq!(text_sha256("abc"), "ba7816bf8f01cfea414140de5dae2223b00361a396177a9cb410ff61f20015ad");
    assert_eq!(
        content_sha256(&Vec::new()),
        "e3b0c44298fc1c149afbf4c8996fb92427ae41e4649b934ca495991b7852b855"
    );
}

#[test]
fn fingerprint_ignores_spacing_of_the_commentary() {
    let expected = "19cfc2aea4cae1bca87b0509e12105baa9b424bc58be64d1df9d7bae5d5c0759";
    assert_eq!(compute_fingerprint("x", "urn:li:person:1", "hello world"), expected);
    assert_eq!(compute_fingerprint("x", "urn:li:person:1", "  hello \n\t world "), expected);
    assert_ne!(compute_fingerprint("linkedin", "urn:li:person:1", "hello world"), expected);
    assert_eq!(split_words(" a  b\nc "), vec!["a", "b", "c"]);
}

#[test]
fn media_signature_joins_digests() {
    assert_eq!(compute_media_signature(&vec![]), "");
    assert_eq!(
        compute_media_signature(&vec![b"one".to_vec(), b"two".to_vec()]),
        "7692c3ad3540bb803c020b3aee66cd8887123234ea0c6e7143c0add73ff431ed,3fc4ccfe745870e2c0d99f71f30ff0656c8dedd41cc1d7d3d376b0dbe685e2f3"
    );
    assert_eq!(combine_text_and_media_for_fingerprint("t", ""), "t");
    assert_eq!(combine_text_and_media_for_fingerprint("t", "ab"), "t\n[media_sha256:ab]");
}

#[test]
fn little_text_escapes_reserved_characters() {
    assert_eq!(escape_little_text_plain("a|b{c}@[d](e)<f>#\\*_~g"), "a\\|b\\{c\\}\\@\\[d\\]\\(e\\)\\<f\\>\\#\\\\\\*\\_\\~g");
    assert_eq!(escape_little_text_plain("plain text."), "plain text.");
}

#[test]
fn signature_flags_and_layers() {
    assert_eq!(signature_cli_override(true, true), Some(true));
    assert_eq!(signature_cli_override(false, true), Some(false));
    assert_eq!(signature_cli_override(false, false), None);

    let mut cfg = config();
    assert_eq!(resolve_signature_text(&cfg, PublishPlatformKind::X, None).ok(), Some(None));
    match resolve_signature_text(&cfg, PublishPlatformKind::Linkedin, Some(true)) {
        Err(AppError::Validation { message, .. }) => {
            assert_eq!(message, "Signature is enabled for linkedin but no signature text is configured.")
        }
        other => panic!("unexpected: {other:?}"),
    }
    cfg.global_signature = SignatureLayer { enabled: Some(true), text: Some("-- g".to_string()) };
    cfg.x_signature = SignatureLayer { enabled: None, text: Some("-- x".to_string()) };
    assert_eq!(
        resolve_signature_text(&cfg, PublishPlatformKind::X, None).ok(),
        Some(Some("-- x".to_string()))
    );
    assert_eq!(
        resolve_signature_text(&cfg, PublishPlatformKind::Linkedin, None).ok(),
        Some(Some("-- g".to_string()))
    );
    assert_eq!(resolve_signature_text(&cfg, PublishPlatformKind::X, Some(false)).ok(), Some(None));
}

#[test]
fn duplicate_guard_finds_newest_matching_entry() {
    let log = vec![
        Ok(entry("x", "me", "fp", "old")),
        Ok(entry("linkedin", "me", "fp", "li")),
        Ok(entry("x", "me", "fp", "new")),
        Ok(entry("x", "other", "fp", "other")),
    ];
    assert_eq!(find_existing_publish(&log, "x", "me", "fp").ok(), Some(Some(2)));
    assert_eq!(find_existing_publish(&log, "x", "me", "zz").ok(), Some(None));
    match maybe_block_duplicate(&log, "x", "me", "fp", "sha", false) {
        Err(AppError::DuplicatePublish { existing_post_id, file_sha256, existing_published_at, message, .. }) => {
            assert_eq!(existing_post_id.as_deref(), Some("new"));
            assert_eq!(file_sha256, "sha");
            assert_eq!(existing_published_at, "at-new");
            assert_eq!(message, "Duplicate publish blocked for same platform/author/content.");
        }
        other => panic!("unexpected: {other:?}"),
    }
    assert!(maybe_block_duplicate(&log, "x", "me", "fp", "sha", true).is_ok());
    assert!(maybe_block_duplicate(&log, "x", "me", "zz", "sha", false).is_ok());
}

#[test]
fn unreadable_log_line_is_reported() {
    let log = vec![Ok(entry("x", "me", "fp", "a")), Err("bad json".to_string())];
    match find_existing_publish(&log, "x", "me", "fp") {
        Err(AppError::Io { message }) => assert_eq!(message, "Failed to parse publish log entry: bad json"),
        other => panic!("unexpected: {other:?}"),
    }
}

#[test]
fn publish_metadata_is_added_to_objects_only() {
    let out = attach_publish_metadata(JsonValue::object(), "fp", "fs", "ts", true);
    assert_eq!(out.get("duplicate_guard").and_then(|v| v.as_str()), Some("checked"));
    assert_eq!(out.get("fingerprint").and_then(|v| v.as_str()), Some("fp"));
    assert_eq!(out.get("file_sha256").and_then(|v| v.as_str()), Some("fs"));
    assert_eq!(out.get("text_sha256").and_then(|v| v.as_str()), Some("ts"));
    let bypassed = attach_publish_metadata(JsonValue::object(), "fp", "fs", "ts", false);
    assert_eq!(bypassed.get("duplicate_guard").and_then(|v| v.as_str()), Some("bypassed"));
    let not_object = attach_publish_metadata(JsonValue::Null, "fp", "fs", "ts", true);
    assert!(matches!(not_object, JsonValue::Null));
}
