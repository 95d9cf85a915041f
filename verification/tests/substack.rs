use publo::errors::AppError;
use publo::json::JsonValue;
use publo::substack::{
    attachment_id, attachment_request, build_note_body, extract_id, find_existing_handle,
    image_data_url, image_mime, note_payload, note_payload_preview, profile_path,
    substack_response_outcome, truncate, value_as_string, MAX_NOTE_LENGTH_UTF16,
};

fn member<'a>(v: &'a JsonValue, key: &str) -> &'a JsonValue {
    v.get(key).expect("member present")
}

#[test]
fn builds_multiline_note_body_like_pinned_sdk() {
    let body = build_note_body("First line\n\nThird line").expect("build body");
    let attrs = member(&body, "attrs");
    assert_eq!(member(attrs, "schemaVersion").as_str(), Some("v1"));
    assert!(matches!(member(attrs, "title"), JsonValue::Null));
    let content = match member(&body, "content") {
        JsonValue::Array(items) => items,
        other => panic!("content is not an array: {other:?}"),
    };
    assert_eq!(content.len(), 3);
    match member(&content[1], "content") {
        JsonValue::Array(items) => assert!(items.is_empty()),
        other => panic!("paragraph content is not an array: {other:?}"),
    }
}

#[test]
fn enforces_pinned_sdk_note_length() {
    let too_long = "a".repeat(MAX_NOTE_LENGTH_UTF16 + 1);
    assert!(build_note_body(&too_long).is_err());
    assert!(build_note_body("").is_err());
}

#[test]
fn note_body_strips_carriage_returns_and_keeps_text() {
    let body = build_note_body("One\r\nTwo").expect("build body");
    assert_eq!(member(&body, "type").as_str(), Some("doc"));
    let content = match member(&body, "content") {
        JsonValue::Array(items) => items,
        _ => panic!("content"),
    };
    assert_eq!(content.len(), 2);
    let first = match member(&content[0], "content") {
        JsonValue::Array(items) => items,
        _ => panic!("first"),
    };
    assert_eq!(first.len(), 1);
    assert_eq!(member(&first[0], "text").as_str(), Some("One"));
    assert_eq!(member(&first[0], "type").as_str(), Some("text"));
}

#[test]
fn note_length_counts_utf16_units() {
    let exactly = "a".repeat(MAX_NOTE_LENGTH_UTF16);
    assert!(build_note_body(&exactly).is_ok());
    // Each of these characters takes two UTF-16 units.
    let wide = "😀".repeat(MAX_NOTE_LENGTH_UTF16 / 2 + 1);
    assert!(build_note_body(&wide).is_err());
    assert!(build_note_body("   \n  ").is_ok());
}

#[test]
fn preview_payload_lists_placeholder_attachments() {
    let body = build_note_body("Hi").expect("body");
    let payload = note_payload_preview(body, 2);
    assert_eq!(member(&payload, "tabId").as_str(), Some("for-you"));
    assert_eq!(member(&payload, "surface").as_str(), Some("feed"));
    assert_eq!(member(&payload, "replyMinimumRole").as_str(), Some("everyone"));
    match member(&payload, "attachmentIds") {
        JsonValue::Array(items) => {
            assert_eq!(items.len(), 2);
            assert_eq!(items[1].as_str(), Some("<resolved-via-substack-image-attachment-2>"));
        }
        _ => panic!("attachmentIds"),
    }
    let none = note_payload_preview(build_note_body("Hi").expect("body"), 0);
    assert!(none.get("attachmentIds").is_none());
}

#[test]
fn image_mime_accepts_png_and_jpeg_only() {
    assert_eq!(image_mime("a/b.PNG").ok(), Some("image/png"));
    assert_eq!(image_mime("a/b.jpeg").ok(), Some("image/jpeg"));
    assert_eq!(image_mime("b.jpg").ok(), Some("image/jpeg"));
    match image_mime("b.gif") {
        Err(AppError::Validation { message, suggestion, .. }) => {
            assert_eq!(message, "Unsupported Substack image format: b.gif");
            assert_eq!(suggestion.as_deref(), Some("Use PNG, JPG, or JPEG images."));
        }
        other => panic!("unexpected: {other:?}"),
    }
}

#[test]
fn image_data_url_encodes_bytes_in_base64() {
    let url = image_data_url("x.png", &vec![0u8, 1, 2, 255]).expect("data url");
    assert_eq!(url, "data:image/png;base64,AAEC/w==");
    assert!(image_data_url("x.bmp", &vec![1u8]).is_err());
}

#[test]
fn ids_are_read_from_nested_answers() {
    let direct = JsonValue::Object(vec![("id".to_string(), JsonValue::UInt(42))]);
    assert_eq!(extract_id(&direct).as_deref(), Some("42"));
    let nested = JsonValue::Object(vec![(
        "item".to_string(),
        JsonValue::Object(vec![(
            "comment".to_string(),
            JsonValue::Object(vec![("id".to_string(), JsonValue::Str("c-9".to_string()))]),
        )]),
    )]);
    assert_eq!(extract_id(&nested).as_deref(), Some("c-9"));
    let empty = JsonValue::Object(vec![("id".to_string(), JsonValue::Str(String::new()))]);
    assert_eq!(extract_id(&empty), None);
    assert_eq!(value_as_string(Some(&JsonValue::Bool(true))), None);
}

#[test]
fn profile_path_percent_encodes_handle_and_truncate_cuts_chars() {
    assert_eq!(profile_path("writer"), "user/writer/public_profile");
    assert_eq!(profile_path("a b/é"), "user/a%20b%2F%C3%A9/public_profile");
    assert_eq!(truncate("abcdef", 3), "abc");
}

#[test]
fn unread_answers_are_reported() {
    match publo::substack::substack_read_error(true, 200, "eof") {
        AppError::Http { message, status, api_error, retryable } => {
            assert_eq!(message, "Substack Note publish response could not be read; publishing outcome is unknown: eof");
            assert_eq!(status, Some(200));
            assert!(api_error.is_some());
            assert!(!retryable);
        }
        other => panic!("unexpected: {other:?}"),
    }
    match publo::substack::substack_read_error(false, 500, "eof") {
        AppError::Http { message, api_error, .. } => {
            assert_eq!(message, "Failed to read Substack response: eof");
            assert!(api_error.is_none());
        }
        other => panic!("unexpected: {other:?}"),
    }
}

#[test]
fn marks_unauthorized_sessions_with_a_recovery_hint() {
    let raw = "{\"error\":\"invalid session\"}";
    let parsed = JsonValue::Object(vec![("error".to_string(), JsonValue::Str("invalid session".to_string()))]);
    let error = substack_response_outcome(401, raw, Some(parsed), false)
        .expect_err("expired session should fail");
    let output = error.to_output();
    assert_eq!(output.http_status, Some(401));
    assert_eq!(
        output.api_error.as_ref().and_then(|value| value.get("local_hint")).and_then(|v| v.as_str()),
        Some("substack_session_invalid")
    );
}

#[test]
fn reports_forbidden_publish_as_rejected_not_unknown() {
    let error = substack_response_outcome(403, "<!DOCTYPE html><title>Error</title>", None, true)
        .expect_err("forbidden publish should fail");
    let output = error.to_output();
    assert_eq!(output.http_status, Some(403));
    assert_eq!(
        output.api_error.as_ref().and_then(|value| value.get("local_hint")).and_then(|v| v.as_str()),
        Some("substack_publish_forbidden")
    );
    assert!(!output.message.contains("unknown"));
}

#[test]
fn profile_attachment_and_publish_steps_use_the_answers() {
    let options = JsonValue::Object(vec![(
        "potentialHandles".to_string(),
        JsonValue::Array(vec![JsonValue::Object(vec![
            ("handle".to_string(), JsonValue::Str("writer".to_string())),
            ("type".to_string(), JsonValue::Str("existing".to_string())),
        ])]),
    )]);
    let handle = find_existing_handle(&options).expect("handle");
    assert_eq!(handle, "writer");
    assert_eq!(profile_path(&handle), "user/writer/public_profile");

    let text_only = note_payload(build_note_body("Text only").unwrap(), &vec![]);
    assert!(text_only.get("attachmentIds").is_none());
    assert_eq!(text_only.get("tabId").and_then(|v| v.as_str()), Some("for-you"));
    assert_eq!(text_only.get("surface").and_then(|v| v.as_str()), Some("feed"));
    assert_eq!(text_only.get("replyMinimumRole").and_then(|v| v.as_str()), Some("everyone"));

    let uploaded = JsonValue::Object(vec![
        ("id".to_string(), JsonValue::UInt(1)),
        ("url".to_string(), JsonValue::Str("https://cdn.example/image.png".to_string())),
    ]);
    let request = attachment_request(&uploaded).expect("attachment request");
    match &request {
        JsonValue::Object(members) => {
            assert_eq!(members.len(), 2);
            assert_eq!(request.get("url").and_then(|v| v.as_str()), Some("https://cdn.example/image.png"));
            assert_eq!(request.get("type").and_then(|v| v.as_str()), Some("image"));
        }
        other => panic!("not an object: {other:?}"),
    }
    let answer = JsonValue::Object(vec![("id".to_string(), JsonValue::Str("attachment-1".to_string()))]);
    let id = attachment_id(&answer).expect("attachment id");
    assert_eq!(id, "attachment-1");

    let with_image = note_payload(build_note_body("Hello from Publo").unwrap(), &vec![id]);
    match with_image.get("attachmentIds") {
        Some(JsonValue::Array(ids)) => {
            assert_eq!(ids.len(), 1);
            assert_eq!(ids[0].as_str(), Some("attachment-1"));
        }
        other => panic!("unexpected attachment ids: {other:?}"),
    }
    let receipt = JsonValue::Object(vec![("id".to_string(), JsonValue::UInt(303))]);
    assert_eq!(extract_id(&receipt).as_deref(), Some("303"));
    match attachment_id(&JsonValue::Object(vec![])) {
        Err(AppError::Http { status, .. }) => assert_eq!(status, Some(502)),
        other => panic!("unexpected: {other:?}"),
    }
}
