use publo::link_preview::{
    check_preview_content_type, check_preview_size, detect_first_link, parse_metadata,
    preview_state, truncate_chars,
};
use publo::urls::ParsedUrl;

#[test]
fn finds_first_http_link_and_trims_markdown_punctuation() {
    let found = detect_first_link(
        "Read [this article](https://writer.substack.com/p/example). Then https://example.com",
    )
    .expect("detect URL");
    assert_eq!(found.serialization.as_str(), "https://writer.substack.com/p/example");
}

#[test]
fn reports_link_suppression_for_linkedin_media() {
    let state = preview_state("See https://example.com/story", true);
    assert_eq!(state.status, "suppressed_by_media");
    assert_eq!(state.reason, Some("linkedin_native_media_takes_precedence"));
}

#[test]
fn parses_open_graph_metadata_and_relative_image() {
    let url = ParsedUrl::parse("https://example.com/articles/one").unwrap();
    let metadata = parse_metadata(
        &url,
        r#"<html><head>
                <title>Fallback</title>
                <meta property="og:title" content="Article title">
                <meta property="og:description" content="Article description">
                <meta property="og:image" content="/cover.png">
            </head></html>"#,
    );
    assert_eq!(metadata.title, "Article title");
    assert_eq!(metadata.description.as_deref(), Some("Article description"));
    assert_eq!(metadata.image_url.as_deref(), Some("https://example.com/cover.png"));
}

#[test]
fn preview_state_without_link_is_not_found() {
    let state = preview_state("No links here at all.", false);
    assert_eq!(state.status, "not_found");
    assert!(state.url.is_none());
    assert!(state.domain.is_none());
    assert!(state.reason.is_none());
}

#[test]
fn preview_state_with_link_and_no_media_is_found() {
    let state = preview_state("See https://example.com/story today", false);
    assert_eq!(state.status, "found");
    assert_eq!(state.url.as_deref(), Some("https://example.com/story"));
    assert_eq!(state.domain.as_deref(), Some("example.com"));
    assert!(state.reason.is_none());
}

#[test]
fn metadata_falls_back_to_title_tag_and_host() {
    let url = ParsedUrl::parse("https://example.org/a").unwrap();
    let metadata = parse_metadata(&url, "<html><head><title>Plain title</title></head></html>");
    assert_eq!(metadata.title, "Plain title");
    assert_eq!(metadata.domain, "example.org");
    assert!(metadata.description.is_none());
    assert!(metadata.image_url.is_none());

    let bare = parse_metadata(&url, "<html><body>nothing</body></html>");
    assert_eq!(bare.title, "example.org");
}

#[test]
fn truncate_chars_counts_characters_not_bytes() {
    assert_eq!(truncate_chars("héllo", 2), "hé");
    assert_eq!(truncate_chars("abc", 10), "abc");
    assert_eq!(truncate_chars("abc", 0), "");
}

#[test]
fn preview_fetch_checks_content_type_and_size() {
    assert!(check_preview_content_type("https://e.x", Some("text/html; charset=utf-8")).is_ok());
    assert!(check_preview_content_type("https://e.x", None).is_ok());
    assert!(check_preview_content_type("https://e.x", Some("image/png")).is_err());
    assert!(check_preview_size(10).is_ok());
    assert!(check_preview_size(10_000_000).is_err());
}

#[test]
fn url_parse_rejects_relative_input() {
    assert!(ParsedUrl::parse("not a url").is_err());
    let u = ParsedUrl::parse("HTTPS://Example.COM:8443/x?y=1").unwrap();
    assert_eq!(u.scheme, "https");
    assert_eq!(u.host.as_deref(), Some("example.com"));
    assert_eq!(u.port, Some(8443));
    assert_eq!(u.path, "/x");
}
