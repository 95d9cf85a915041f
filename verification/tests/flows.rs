use publo::auth::EnvVars;
use publo::catalog::{is_valid_media_request, ready_mark_action, ReadyMarkAction};
use publo::errors::AppError;
use publo::jobs::OperatorArg;
use publo::json::JsonValue;
use publo::oauth::{
    linkedin_authorize_url, linkedin_login_settings, linkedin_token_form, x_token_env_updates,
    x_token_form, XTokenResponse,
};
use publo::platforms::{
    is_generic_x_forbidden, linkedin_post_id, linkedin_preview_media_ids, x_post_id,
    x_preview_media_ids,
};
use publo::requests::{linkedin_guide_step, x_token_status, LinkedinGuideStep};
use publo::schedule::{operator_from_stored, publish_mode_for_name};
use publo::substack::{
    attachment_request, find_existing_handle, response_request_id, substack_response_outcome,
};

fn env(pairs: &[(&str, &str)]) -> EnvVars {
    EnvVars { vars: pairs.iter().map(|(k, v)| (k.to_string(), v.to_string())).collect() }
}

fn s(v: &str) -> JsonValue {
    JsonValue::Str(v.to_string())
}

fn obj(members: Vec<(&str, JsonValue)>) -> JsonValue {
    JsonValue::Object(members.into_iter().map(|(k, v)| (k.to_string(), v)).collect())
}

fn pairs(v: &[(String, String)]) -> Vec<(&str, &str)> {
    v.iter().map(|(a, b)| (a.as_str(), b.as_str())).collect()
}

#[test]
fn linkedin_login_needs_app_settings_and_a_host() {
    match linkedin_login_settings(&env(&[])).unwrap_err() {
        AppError::MissingAuth { message, .. } => assert_eq!(message, "LINKEDIN_CLIENT_ID is missing."),
        other => panic!("unexpected: {other:?}"),
    }
    match linkedin_login_settings(&env(&[("LINKEDIN_CLIENT_ID", "id")])).unwrap_err() {
        AppError::MissingAuth { message, .. } => assert_eq!(message, "LINKEDIN_REDIRECT_URI is missing."),
        other => panic!("unexpected: {other:?}"),
    }
    let partial = env(&[("LINKEDIN_CLIENT_ID", "id"), ("LINKEDIN_REDIRECT_URI", "http://localhost:8788/callback")]);
    match linkedin_login_settings(&partial).unwrap_err() {
        AppError::MissingAuth { message, .. } => assert_eq!(message, "LINKEDIN_CLIENT_SECRET is missing."),
        other => panic!("unexpected: {other:?}"),
    }
    let bad = env(&[
        ("LINKEDIN_CLIENT_ID", "id"),
        ("LINKEDIN_CLIENT_SECRET", "sec"),
        ("LINKEDIN_REDIRECT_URI", "not a url"),
    ]);
    match linkedin_login_settings(&bad).unwrap_err() {
        AppError::Validation { message, .. } => assert!(message.starts_with("Invalid LINKEDIN_REDIRECT_URI: ")),
        other => panic!("unexpected: {other:?}"),
    }

    let good = env(&[
        ("LINKEDIN_CLIENT_ID", "id 1"),
        ("LINKEDIN_CLIENT_SECRET", "sec"),
        ("LINKEDIN_REDIRECT_URI", "http://localhost:8788/callback"),
    ]);
    let settings = linkedin_login_settings(&good).expect("settings");
    assert_eq!(settings.scopes, "w_member_social");
    assert_eq!(settings.bind_target, "localhost:8788");
    assert_eq!(settings.expected_path, "/callback");
    assert_eq!(settings.client_secret.as_deref(), Some("sec"));
    assert_eq!(
        linkedin_authorize_url(&settings, "st"),
        "https://www.linkedin.com/oauth/v2/authorization?response_type=code&client_id=id%201&redirect_uri=http%3A%2F%2Flocalhost%3A8788%2Fcallback&scope=w_member_social&state=st"
    );

    let no_port = env(&[
        ("LINKEDIN_CLIENT_ID", "id"),
        ("LINKEDIN_CLIENT_SECRET", "sec"),
        ("LINKEDIN_REDIRECT_URI", "http://127.0.0.1"),
        ("LINKEDIN_SCOPES", "openid profile"),
    ]);
    let settings = linkedin_login_settings(&no_port).expect("settings");
    assert_eq!(settings.bind_target, "127.0.0.1:80");
    assert_eq!(settings.expected_path, "/");
    assert_eq!(settings.scopes, "openid profile");
}

#[test]
fn linkedin_guide_walks_the_setup_steps() {
    assert!(matches!(linkedin_guide_step(&env(&[])), LinkedinGuideStep::AppSettings));
    let app = [
        ("LINKEDIN_CLIENT_ID", "id"),
        ("LINKEDIN_CLIENT_SECRET", "sec"),
        ("LINKEDIN_REDIRECT_URI", "http://localhost/cb"),
    ];
    assert!(matches!(linkedin_guide_step(&env(&app)), LinkedinGuideStep::Login));
    let mut with_token = app.to_vec();
    with_token.push(("LINKEDIN_ACCESS_TOKEN", "tok"));
    assert!(matches!(linkedin_guide_step(&env(&with_token)), LinkedinGuideStep::AuthorUrn));
    with_token.push(("LINKEDIN_AUTHOR_URN", "urn:li:person:1"));
    assert!(matches!(linkedin_guide_step(&env(&with_token)), LinkedinGuideStep::Ready));
}

#[test]
fn token_forms_and_x_env_updates() {
    let f = linkedin_token_form("c", "http://r", "id", "sec");
    assert_eq!(
        pairs(&f),
        vec![
            ("grant_type", "authorization_code"),
            ("code", "c"),
            ("redirect_uri", "http://r"),
            ("client_id", "id"),
            ("client_secret", "sec"),
        ]
    );
    let x = x_token_form("c", "http://r", "ver", "id", &None);
    assert_eq!(
        pairs(&x),
        vec![
            ("grant_type", "authorization_code"),
            ("code", "c"),
            ("redirect_uri", "http://r"),
            ("code_verifier", "ver"),
            ("client_id", "id"),
        ]
    );
    let x = x_token_form("c", "http://r", "ver", "id", &Some("sec".to_string()));
    assert_eq!(x.last().map(|(a, b)| (a.as_str(), b.as_str())), Some(("client_secret", "sec")));

    let full = XTokenResponse {
        access_token: "a".to_string(),
        refresh_token: Some("r".to_string()),
        expires_in: Some(7200),
        scope: Some("tweet.write".to_string()),
        token_type: Some("bearer".to_string()),
    };
    assert_eq!(
        pairs(&x_token_env_updates(&full)),
        vec![
            ("X_ACCESS_TOKEN", "a"),
            ("X_REFRESH_TOKEN", "r"),
            ("X_ACCESS_TOKEN_EXPIRES_IN", "7200"),
            ("X_SCOPES", "tweet.write"),
            ("X_TOKEN_TYPE", "bearer"),
        ]
    );
    let bare = XTokenResponse {
        access_token: "a".to_string(),
        refresh_token: None,
        expires_in: None,
        scope: None,
        token_type: None,
    };
    assert_eq!(pairs(&x_token_env_updates(&bare)), vec![("X_ACCESS_TOKEN", "a")]);
}

#[test]
fn x_token_status_reports_presence_and_values() {
    let v = x_token_status(&env(&[("X_ACCESS_TOKEN", "tok"), ("X_REFRESH_TOKEN", "  "), ("X_SCOPE", " a b ")]));
    assert!(matches!(v.get("ok"), Some(JsonValue::Bool(true))));
    assert_eq!(v.get("platform").and_then(|p| p.as_str()), Some("x"));
    assert!(matches!(v.get("access_token_present"), Some(JsonValue::Bool(true))));
    assert!(matches!(v.get("refresh_token_present"), Some(JsonValue::Bool(false))));
    assert!(matches!(v.get("access_token_expires_in"), Some(JsonValue::Null)));
    assert_eq!(v.get("scopes").and_then(|p| p.as_str()), Some("a b"));
}

#[test]
fn substack_answers_become_values_or_errors() {
    match substack_response_outcome(200, "  ", None, false) {
        Ok(JsonValue::Null) => {}
        other => panic!("unexpected: {other:?}"),
    }
    let parsed = obj(vec![("id", JsonValue::UInt(5))]);
    match substack_response_outcome(201, "{\"id\":5}", Some(parsed), true) {
        Ok(v) => assert!(matches!(v.get("id"), Some(JsonValue::UInt(5)))),
        other => panic!("unexpected: {other:?}"),
    }
    match substack_response_outcome(200, "<html>", None, true) {
        Err(AppError::Http { message, status, api_error, retryable }) => {
            assert_eq!(
                message,
                "Substack accepted the publish request but returned a non-JSON response; publishing outcome is unknown."
            );
            assert_eq!(status, Some(200));
            assert!(!retryable);
            let e = api_error.expect("api error");
            assert_eq!(e.get("local_hint").and_then(|h| h.as_str()), Some("substack_publish_outcome_unknown"));
            assert_eq!(e.get("response_preview").and_then(|h| h.as_str()), Some("<html>"));
        }
        other => panic!("unexpected: {other:?}"),
    }
    match substack_response_outcome(200, "<html>", None, false) {
        Err(AppError::Http { message, .. }) => assert_eq!(message, "Substack returned a non-JSON response."),
        other => panic!("unexpected: {other:?}"),
    }
    match substack_response_outcome(401, "nope", None, false) {
        Err(AppError::Http { message, status, api_error, retryable }) => {
            assert_eq!(message, "Substack API returned 401");
            assert_eq!(status, Some(401));
            assert!(!retryable);
            let e = api_error.expect("api error");
            assert_eq!(e.get("local_hint").and_then(|h| h.as_str()), Some("substack_session_invalid"));
            let preview = e.get("provider_error").expect("provider error");
            assert_eq!(preview.get("response_preview").and_then(|h| h.as_str()), Some("nope"));
        }
        other => panic!("unexpected: {other:?}"),
    }
    match substack_response_outcome(503, "", None, false) {
        Err(AppError::Http { retryable, .. }) => assert!(retryable),
        other => panic!("unexpected: {other:?}"),
    }
    match substack_response_outcome(503, "", None, true) {
        Err(AppError::Http { retryable, .. }) => assert!(!retryable),
        other => panic!("unexpected: {other:?}"),
    }
    match substack_response_outcome(403, "", None, true) {
        Err(AppError::Http { api_error, .. }) => assert_eq!(
            api_error.expect("api error").get("local_hint").and_then(|h| h.as_str()),
            Some("substack_publish_forbidden")
        ),
        other => panic!("unexpected: {other:?}"),
    }
}

#[test]
fn substack_profile_handle_and_attachments() {
    let options = obj(vec![(
        "potentialHandles",
        JsonValue::Array(vec![
            obj(vec![("type", s("suggested")), ("handle", s("new"))]),
            obj(vec![("type", s("existing")), ("handle", s("ana"))]),
        ]),
    )]);
    assert_eq!(find_existing_handle(&options).expect("handle"), "ana");
    let blank = obj(vec![(
        "potentialHandles",
        JsonValue::Array(vec![obj(vec![("type", s("existing")), ("handle", s("  "))])]),
    )]);
    match find_existing_handle(&blank).unwrap_err() {
        AppError::Http { message, status, .. } => {
            assert_eq!(message, "Authenticated Substack profile was not found.");
            assert_eq!(status, Some(502));
        }
        other => panic!("unexpected: {other:?}"),
    }

    let req = attachment_request(&obj(vec![("url", s("https://cdn/x.png"))])).expect("request");
    assert_eq!(req.get("url").and_then(|u| u.as_str()), Some("https://cdn/x.png"));
    assert_eq!(req.get("type").and_then(|u| u.as_str()), Some("image"));
    match attachment_request(&obj(vec![])).unwrap_err() {
        AppError::Validation { message, .. } => assert_eq!(message, "Uploaded Substack image has no URL."),
        other => panic!("unexpected: {other:?}"),
    }

    assert_eq!(
        response_request_id(None, Some("ray".to_string()), Some("amzn".to_string())).as_deref(),
        Some("ray")
    );
    assert_eq!(response_request_id(Some("req".to_string()), Some("ray".to_string()), None).as_deref(), Some("req"));
    assert_eq!(response_request_id(None, None, None), None);
}

#[test]
fn ready_marks_prefer_existing_decisions() {
    assert!(matches!(
        ready_mark_action(Some("p".to_string()), Some("a".to_string()), None),
        ReadyMarkAction::KeepExisting { job_id } if job_id == "p"
    ));
    assert!(matches!(
        ready_mark_action(None, Some("a".to_string()), Some(("r".to_string(), "failed".to_string()))),
        ReadyMarkAction::RefreshAsset { job_id } if job_id == "a"
    ));
    assert!(matches!(
        ready_mark_action(None, None, Some(("r".to_string(), "failed".to_string()))),
        ReadyMarkAction::Revive { job_id, from_status } if job_id == "r" && from_status == "failed"
    ));
    assert!(matches!(ready_mark_action(None, None, None), ReadyMarkAction::Create));
}

#[test]
fn media_requests_need_absolute_images_inside_roots() {
    let roots = vec![Some("/notes".to_string()), None];
    assert!(is_valid_media_request("/notes/a.PNG", &Some("/notes/a.PNG".to_string()), &roots));
    assert!(!is_valid_media_request("notes/a.png", &Some("/notes/a.png".to_string()), &roots));
    assert!(!is_valid_media_request("/notes/a.gif", &Some("/notes/a.gif".to_string()), &roots));
    assert!(!is_valid_media_request("/other/a.png", &Some("/other/a.png".to_string()), &roots));
    assert!(!is_valid_media_request("/notes/a.png", &None, &roots));
}

#[test]
fn post_ids_and_preview_ids() {
    let x_body = obj(vec![("data", obj(vec![("id", s("123"))]))]);
    assert_eq!(x_post_id(&Some(x_body)).as_deref(), Some("123"));
    assert_eq!(x_post_id(&None), None);
    assert_eq!(
        linkedin_post_id(&Some(obj(vec![("id", s("urn:li:share:1"))])), &Some("req".to_string())).as_deref(),
        Some("urn:li:share:1")
    );
    assert_eq!(linkedin_post_id(&None, &Some("req".to_string())).as_deref(), Some("req"));
    assert_eq!(x_preview_media_ids(2), vec!["<resolved-via-x-upload-1>", "<resolved-via-x-upload-2>"]);
    assert_eq!(linkedin_preview_media_ids(1), vec!["<resolved-via-linkedin-upload>"]);
    assert_eq!(
        linkedin_preview_media_ids(2),
        vec!["<resolved-via-linkedin-upload-1>", "<resolved-via-linkedin-upload-2>"]
    );
    assert_eq!(linkedin_preview_media_ids(0), Vec::<String>::new());
    assert_eq!(publish_mode_for_name("x").as_deref(), Some("single"));
    assert_eq!(publish_mode_for_name("linkedin"), None);
    assert!(matches!(operator_from_stored(&Some("ai".to_string())), OperatorArg::Ai));
    assert!(matches!(operator_from_stored(&Some("user".to_string())), OperatorArg::User));
    assert!(matches!(operator_from_stored(&None), OperatorArg::User));
}

#[test]
fn generic_x_forbidden_is_recognised() {
    let generic = obj(vec![
        ("title", s("Forbidden")),
        ("type", s("about:blank")),
        ("detail", s("You are not permitted to perform this action.")),
    ]);
    assert!(is_generic_x_forbidden(&Some(generic)));
    let specific = obj(vec![("detail", s("You are not permitted to post a duplicate."))]);
    assert!(!is_generic_x_forbidden(&Some(specific)));
    assert!(!is_generic_x_forbidden(&None));
}
