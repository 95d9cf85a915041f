use publo::auth::{load_linkedin_auth, load_substack_auth, load_x_auth, EnvVars};
use publo::errors::AppError;
use publo::oauth::{
    check_oauth_callback, check_oauth_state, generate_code_verifier, generate_state,
    linkedin_author_urn, pkce_code_challenge, x_authorize_url, x_login_settings, OAuthProvider,
};
use publo::oauth::{
    linkedin_refresh_env_updates, linkedin_refresh_form, linkedin_token_env_updates,
    x_refresh_form, LinkedinTokenResponse,
};
use publo::oauth::{check_saved_oauth_state, linkedin_exchange_credentials, x_exchange_inputs, SavedXLogin};
use publo::requests::{linkedin_access_token, linkedin_token_status};
use publo::platforms::{
    ensure_x_required_scopes, linkedin_post_url, media_content_type, x_author_key, x_post_url,
    x_scope_contains,
};
use publo::schedule::{
    normalize_platform_list, parse_platform_loose, schedule_platform, selected_platforms_from_json,
    selected_platforms_json,
};
use publo::jobs::PlatformArg;

fn env(pairs: &[(&str, &str)]) -> EnvVars {
    EnvVars { vars: pairs.iter().map(|(k, v)| (k.to_string(), v.to_string())).collect() }
}

#[test]
fn x_author_key_prefers_id_then_handle() {
    assert_eq!(x_author_key(&env(&[])), "x:self");
    assert_eq!(x_author_key(&env(&[("X_AUTHOR_HANDLE", " @me ")])), "@me");
    assert_eq!(x_author_key(&env(&[("X_AUTHOR_ID", "42"), ("X_AUTHOR_HANDLE", "@me")])), "42");
    assert_eq!(x_author_key(&env(&[("X_AUTHOR_ID", "   "), ("X_AUTHOR_HANDLE", "@me")])), "@me");
}

#[test]
fn required_x_scopes_are_appended_once() {
    assert_eq!(
        ensure_x_required_scopes("users.read  extra"),
        "users.read extra tweet.read tweet.write media.write offline.access"
    );
    assert_eq!(
        ensure_x_required_scopes(""),
        "tweet.read tweet.write users.read media.write offline.access"
    );
    assert!(x_scope_contains(&env(&[("X_SCOPES", "a media.write b")]), "media.write"));
    assert!(!x_scope_contains(&env(&[("X_SCOPES", "a media.writer")]), "media.write"));
    assert!(!x_scope_contains(&env(&[]), "media.write"));
}

#[test]
fn post_urls_and_media_types() {
    assert_eq!(x_post_url("123"), "https://x.com/i/web/status/123");
    assert_eq!(linkedin_post_url("urn:li:share:9"), "https://www.linkedin.com/feed/update/urn:li:share:9/");
    assert_eq!(media_content_type("a.JPG").ok().as_deref(), Some("image/jpeg"));
    match media_content_type("a.webp") {
        Err(AppError::Validation { message, .. }) => {
            assert_eq!(message, "Unsupported media extension for 'a.webp'. Allowed: .png, .jpg, .jpeg")
        }
        other => panic!("unexpected: {other:?}"),
    }
    assert_eq!(linkedin_author_urn("abc"), "urn:li:person:abc");
}

#[test]
fn selected_platforms_round_trip_through_json() {
    let ps = vec![PlatformArg::Linkedin, PlatformArg::X];
    let stored = selected_platforms_json(&ps);
    assert_eq!(stored, "[\"linkedin\",\"x\"]");
    assert_eq!(selected_platforms_from_json(&stored), vec!["linkedin", "x"]);
    assert_eq!(selected_platforms_from_json("[\"x\",\"mastodon\",\"x\"]"), vec!["x"]);
    assert!(selected_platforms_from_json("not json").is_empty());
    assert_eq!(parse_platform_loose("  LinkedIn "), Some(PlatformArg::Linkedin));
    assert_eq!(parse_platform_loose("bsky"), None);
    let list = normalize_platform_list(&vec!["X".to_string(), "linkedin".to_string(), "x".to_string()]);
    assert_eq!(list.ok(), Some(vec![PlatformArg::X, PlatformArg::Linkedin]));
    assert!(normalize_platform_list(&vec!["x".to_string(), "bsky".to_string()]).is_err());
}

#[test]
fn scheduling_platform_choice() {
    assert_eq!(schedule_platform(Some(PlatformArg::X), &None, &vec![]).ok().as_deref(), Some("x"));
    assert_eq!(
        schedule_platform(None, &Some("linkedin".to_string()), &vec![]).ok().as_deref(),
        Some("linkedin")
    );
    assert_eq!(schedule_platform(None, &None, &vec!["x".to_string()]).ok().as_deref(), Some("x"));
    match schedule_platform(None, &None, &vec!["x".to_string(), "linkedin".to_string()]) {
        Err(AppError::Validation { message, .. }) => assert_eq!(
            message,
            "This decision has multiple platforms. Pass --platform when scheduling."
        ),
        other => panic!("unexpected: {other:?}"),
    }
    assert!(schedule_platform(None, &None, &vec![]).is_err());
}

#[test]
fn oauth_random_values_have_the_right_shape() {
    let s = generate_state(32);
    assert_eq!(s.chars().count(), 32);
    assert!(s.chars().all(|c| c.is_ascii_alphanumeric()));
    let v = generate_code_verifier(64);
    assert_eq!(v.chars().count(), 64);
    assert!(v.chars().all(|c| c.is_ascii_alphanumeric() || "-._~".contains(c)));
}

#[test]
fn pkce_challenge_matches_the_rfc_example() {
    assert_eq!(
        pkce_code_challenge("dBjftJeZ4CVP-mB92K27uhbUJU1p1r_wW1gFWFOEjXk"),
        "E9Melhoa2OwvFrEMTJguCHaoeK1t8URWbuGJSstw-cM"
    );
}

#[test]
fn oauth_callback_checks() {
    let ok = check_oauth_callback(OAuthProvider::X, None, None, Some("code".to_string()), Some("st".to_string()), "st");
    assert_eq!(ok.ok().as_deref(), Some("code"));
    let mismatch = check_oauth_callback(OAuthProvider::X, None, None, Some("code".to_string()), Some("other".to_string()), "st");
    assert!(mismatch.is_err());
    let no_code = check_oauth_callback(OAuthProvider::Linkedin, None, None, None, Some("st".to_string()), "st");
    assert!(no_code.is_err());
    let denied = check_oauth_callback(OAuthProvider::X, Some("access_denied".to_string()), None, None, None, "st");
    assert!(denied.is_err());
    assert!(check_oauth_state("a", "a").is_ok());
    assert!(check_oauth_state("a", "b").is_err());
}

#[test]
fn x_login_settings_and_authorize_url() {
    match x_login_settings(&env(&[])) {
        Err(AppError::MissingAuth { message, command, .. }) => {
            assert_eq!(message, "X_CLIENT_ID is missing.");
            assert_eq!(command.as_deref(), Some("publo auth x login"));
        }
        other => panic!("unexpected: {other:?}"),
    }
    let e = env(&[("X_CLIENT_ID", "cid"), ("X_REDIRECT_URI", "http://127.0.0.1:8789/callback")]);
    let s = x_login_settings(&e).expect("settings");
    assert_eq!(s.bind_target, "127.0.0.1:8789");
    assert_eq!(s.expected_path, "/callback");
    assert_eq!(s.scopes, "tweet.read tweet.write users.read media.write offline.access");
    let url = x_authorize_url(&s, "st", "ch");
    assert_eq!(
        url,
        "https://twitter.com/i/oauth2/authorize?response_type=code&client_id=cid&redirect_uri=http%3A%2F%2F127.0.0.1%3A8789%2Fcallback&scope=tweet.read%20tweet.write%20users.read%20media.write%20offline.access&state=st&code_challenge=ch&code_challenge_method=S256"
    );
    let bad = env(&[("X_CLIENT_ID", "cid"), ("X_REDIRECT_URI", "nope")]);
    assert!(matches!(x_login_settings(&bad), Err(AppError::Validation { .. })));
}

#[test]
fn provider_credentials_are_required() {
    assert!(matches!(load_x_auth(&env(&[])), Err(AppError::MissingAuth { .. })));
    assert!(load_x_auth(&env(&[("X_ACCESS_TOKEN", "tok")])).is_ok());
    assert!(matches!(load_linkedin_auth(&env(&[])), Err(AppError::MissingAuth { .. })));
    assert!(matches!(load_substack_auth(&env(&[])), Err(AppError::MissingAuth { .. })));
    let sub = load_substack_auth(&env(&[
        ("SUBSTACK_SESSION_TOKEN", "sess"),
        ("SUBSTACK_PUBLICATION_URL", "https://writer.substack.com/p/x?y=1"),
    ]))
    .expect("substack auth");
    assert_eq!(sub.session_token, "sess");
    assert_eq!(sub.publication_url, "https://writer.substack.com/");
}

#[test]
fn error_kinds_map_to_exit_codes_and_reports() {
    let e = AppError::Io { message: "disk".to_string() };
    assert_eq!(e.exit_code(), 4);
    let out = e.to_output();
    assert!(!out.ok);
    assert_eq!(out.error_type, "io_error");
    assert_eq!(out.message, "disk");
    let v = AppError::Validation { message: "m".to_string(), suggestion: Some("s".to_string()), command: None };
    assert_eq!(v.exit_code(), 2);
    assert_eq!(v.to_output().suggestion.as_deref(), Some("s"));
}

#[test]
fn token_refresh_forms_and_env_updates() {
    let f = linkedin_refresh_form("r", "c", "s");
    assert_eq!(
        f,
        vec![
            ("grant_type".to_string(), "refresh_token".to_string()),
            ("refresh_token".to_string(), "r".to_string()),
            ("client_id".to_string(), "c".to_string()),
            ("client_secret".to_string(), "s".to_string()),
        ]
    );
    assert_eq!(x_refresh_form("r", "c", &None).len(), 3);
    let t = LinkedinTokenResponse {
        access_token: "a".to_string(),
        refresh_token: Some("r".to_string()),
        expires_in: Some(60),
        refresh_token_expires_in: None,
    };
    let keys: Vec<String> = linkedin_refresh_env_updates(&t).into_iter().map(|(k, _)| k).collect();
    assert_eq!(keys, vec!["LINKEDIN_ACCESS_TOKEN", "LINKEDIN_ACCESS_TOKEN_EXPIRES_IN", "LINKEDIN_REFRESH_TOKEN"]);
    let keys: Vec<String> = linkedin_token_env_updates(&t).into_iter().map(|(k, _)| k).collect();
    assert_eq!(keys, vec!["LINKEDIN_ACCESS_TOKEN", "LINKEDIN_REFRESH_TOKEN", "LINKEDIN_ACCESS_TOKEN_EXPIRES_IN"]);
    assert_eq!(linkedin_refresh_env_updates(&t)[1].1, "60");
}

#[test]
fn exchange_inputs_and_saved_state() {
    assert!(matches!(check_saved_oauth_state("s", &None), Err(AppError::Validation { .. })));
    assert!(check_saved_oauth_state("s", &Some("s".to_string())).is_ok());
    match check_saved_oauth_state("s", &Some("t".to_string())) {
        Err(AppError::Validation { message, .. }) => assert_eq!(message, "OAuth state mismatch."),
        other => panic!("unexpected: {other:?}"),
    }
    let li = env(&[
        ("LINKEDIN_CLIENT_ID", "id"),
        ("LINKEDIN_CLIENT_SECRET", "sec"),
        ("LINKEDIN_REDIRECT_URI", "http://localhost:8788/callback"),
    ]);
    assert_eq!(
        linkedin_exchange_credentials(&li).ok(),
        Some(("id".to_string(), "sec".to_string(), "http://localhost:8788/callback".to_string()))
    );
    match linkedin_exchange_credentials(&env(&[("LINKEDIN_CLIENT_ID", "id"), ("LINKEDIN_CLIENT_SECRET", "s")])) {
        Err(AppError::MissingAuth { message, .. }) => assert_eq!(message, "LINKEDIN_REDIRECT_URI is missing."),
        other => panic!("unexpected: {other:?}"),
    }
    let saved = Some(SavedXLogin {
        state: "st".to_string(),
        code_verifier: "ver".to_string(),
        client_id: "saved-id".to_string(),
        redirect_uri: "http://127.0.0.1:8789/callback".to_string(),
    });
    let inputs = x_exchange_inputs(&env(&[("X_CLIENT_ID", "env-id")]), &saved, "st", None).expect("inputs");
    assert_eq!(inputs.client_id, "env-id");
    assert_eq!(inputs.redirect_uri, "http://127.0.0.1:8789/callback");
    assert_eq!(inputs.code_verifier, "ver");
    assert!(inputs.client_secret.is_none());
    match x_exchange_inputs(&env(&[]), &saved, "other", None) {
        Err(AppError::Validation { message, .. }) => assert_eq!(message, "X OAuth state mismatch."),
        other => panic!("unexpected: {:?}", other.map(|i| i.client_id)),
    }
    match x_exchange_inputs(&env(&[("X_CLIENT_ID", "a"), ("X_REDIRECT_URI", "b")]), &None, "st", None) {
        Err(AppError::Validation { message, .. }) => assert_eq!(message, "Missing PKCE code verifier."),
        other => panic!("unexpected: {:?}", other.map(|i| i.client_id)),
    }
}

#[test]
fn linkedin_token_reports() {
    let v = linkedin_token_status(&env(&[("LINKEDIN_ACCESS_TOKEN", "t"), ("LINKEDIN_ACCESS_TOKEN_EXPIRES_IN", "60")]));
    assert_eq!(v.get("access_token_present").and_then(|x| x.as_bool()), Some(true));
    assert_eq!(v.get("refresh_token_present").and_then(|x| x.as_bool()), Some(false));
    assert_eq!(v.get("access_token_expires_in").and_then(|x| x.as_str()), Some("60"));
    assert_eq!(v.get("mode").and_then(|x| x.as_str()), Some("auth_token_status"));
    assert_eq!(linkedin_access_token(&env(&[("LINKEDIN_ACCESS_TOKEN", "t")])).ok().as_deref(), Some("t"));
    assert!(linkedin_access_token(&env(&[])).is_err());
}
