use publo::errors::AppError;
use publo::media::{collect_media_preview, preview_issues, MediaPreviewItem};
use publo::note::{
    extract_obsidian_embeds, extract_publish_section_after_last_separator, extract_publish_text,
    remove_obsidian_embed_placeholders, trim_outer_empty_lines,
};
use publo::publish::{
    extract_cashtags, has_allowed_media_extension, is_cjk, is_emoji_like, media_candidates,
    resolve_existing_media_path, validate_linkedin_media_count, validate_x_media_count,
    validate_x_post_text, x_char_weight, x_weighted_length,
};

#[test]
fn weighted_length_counts_urls_as_twenty_three() {
    assert_eq!(x_weighted_length("hello world"), 11);
    assert_eq!(x_weighted_length("see https://example.com/a/very/long/path/indeed"), 3 + 1 + 23);
    assert_eq!(x_weighted_length("(https://example.com)."), 23);
    assert_eq!(x_weighted_length("http://"), 7);
    assert_eq!(x_weighted_length("日本"), 4);
    assert_eq!(x_weighted_length("é"), 2);
    assert_eq!(x_weighted_length("a  b"), 4);
    assert_eq!(x_weighted_length(""), 0);
}

#[test]
fn char_weights_and_classes() {
    assert_eq!(x_char_weight('a'), 1);
    assert_eq!(x_char_weight('中'), 2);
    assert_eq!(x_char_weight('😀'), 2);
    assert_eq!(x_char_weight('é'), 2);
    assert!(is_cjk('中'));
    assert!(is_cjk('한'));
    assert!(!is_cjk('a'));
    assert!(is_emoji_like('😀'));
    assert!(is_emoji_like('☀'));
    assert!(!is_emoji_like('中'));
}

#[test]
fn cashtags_need_word_boundaries() {
    assert_eq!(extract_cashtags("Buy $AAPL and $msft_1 now"), vec!["$AAPL", "$msft_1"]);
    assert!(extract_cashtags("price$AAPL").is_empty());
    assert!(extract_cashtags("$1 and $ and $_x").is_empty());
    assert_eq!(extract_cashtags("$AB-c"), vec!["$AB"]);
    assert_eq!(extract_cashtags("$ABé"), vec!["$AB"]);
}

#[test]
fn x_post_text_rules() {
    assert!(validate_x_post_text("one $AAPL", false, false).is_ok());
    match validate_x_post_text("$AAPL $MSFT", false, false) {
        Err(AppError::Validation { message, command, .. }) => {
            assert_eq!(message, "X self-serve posting allows max 1 cashtag per post; found 2.");
            assert_eq!(command.as_deref(), Some("publo publish x --file <path>"));
        }
        other => panic!("unexpected: {other:?}"),
    }
    assert!(validate_x_post_text("$AAPL $MSFT", true, false).is_ok());
    let long = "a".repeat(281);
    match validate_x_post_text(&long, false, false) {
        Err(AppError::Validation { message, .. }) => {
            assert_eq!(message, "X post is too long by weighted count: 281 > 280.")
        }
        other => panic!("unexpected: {other:?}"),
    }
    assert!(validate_x_post_text(&long, false, true).is_ok());
    assert!(validate_x_post_text(&"a".repeat(280), false, false).is_ok());
}

#[test]
fn media_count_limits() {
    assert!(validate_linkedin_media_count(20).is_ok());
    match validate_linkedin_media_count(21) {
        Err(AppError::Validation { message, suggestion, .. }) => {
            assert_eq!(message, "LinkedIn multi-image supports at most 20 images; found 21.");
            assert_eq!(suggestion.as_deref(), Some("Reduce image count to 20 or fewer and retry."));
        }
        other => panic!("unexpected: {other:?}"),
    }
    assert!(validate_x_media_count(4).is_ok());
    match validate_x_media_count(5) {
        Err(AppError::Validation { message, .. }) => {
            assert_eq!(message, "X supports at most 4 images per post; found 5.")
        }
        other => panic!("unexpected: {other:?}"),
    }
}

#[test]
fn publish_section_follows_last_separator() {
    let raw = "title\n---\ndraft\n  ---  \nFinal text\n";
    assert_eq!(extract_publish_section_after_last_separator(raw), "Final text\n");
    assert_eq!(extract_publish_section_after_last_separator("no sep"), "no sep");
    assert_eq!(extract_publish_section_after_last_separator("a\r\n---\r\nb"), "b");
    assert_eq!(trim_outer_empty_lines("\n\n  body  \n\n"), "body");
}

#[test]
fn embeds_are_extracted_and_removed() {
    let raw = "Intro ![[img one.png|300]] mid ![[ sub/two.jpg#x ]] end ![[ ]]";
    assert_eq!(extract_obsidian_embeds(raw), vec!["img one.png", "sub/two.jpg"]);
    assert_eq!(remove_obsidian_embed_placeholders("a ![[x.png]] b"), "a  b");
    assert_eq!(remove_obsidian_embed_placeholders("a ![[open"), "a ![[open");
    let note = "notes\n---\n\nPost body ![[pic.png]]\n\n";
    assert_eq!(extract_publish_text(note), "Post body");
}

#[test]
fn media_extension_and_lookup_order() {
    assert!(has_allowed_media_extension("a/b.PNG"));
    assert!(has_allowed_media_extension("c.jpeg"));
    assert!(!has_allowed_media_extension("c.gif"));
    assert!(!has_allowed_media_extension("png"));
    let lookups = vec!["/media".to_string(), "/shared".to_string()];
    assert_eq!(
        media_candidates("/notes/post.md", "pic.png", &lookups),
        vec!["/notes/pic.png", "/media/pic.png", "/shared/pic.png"]
    );
    assert_eq!(media_candidates("/notes/post.md", "/abs/pic.png", &lookups), vec!["/abs/pic.png"]);
    let existing = vec!["/shared/pic.png".to_string(), "/media/pic.png".to_string()];
    assert_eq!(
        resolve_existing_media_path("/notes/post.md", "pic.png", &lookups, &existing).as_deref(),
        Some("/media/pic.png")
    );
    assert_eq!(resolve_existing_media_path("/notes/post.md", "x.png", &lookups, &existing), None);
}

#[test]
fn media_preview_and_issues() {
    let refs = vec!["pic.png".to_string(), "doc.pdf".to_string(), "gone.jpg".to_string()];
    let existing = vec!["/notes/pic.png".to_string()];
    let items = collect_media_preview("/notes/post.md", &refs, &vec![], &existing);
    assert_eq!(items.len(), 3);
    assert!(items[0].exists && items[0].valid_extension);
    assert_eq!(items[0].resolved_path.as_deref(), Some("/notes/pic.png"));
    assert!(!items[1].valid_extension);
    assert_eq!(items[1].error.as_deref(), Some("unsupported extension (allowed: .png, .jpg, .jpeg)"));
    assert!(!items[2].exists);
    assert_eq!(
        items[2].error.as_deref(),
        Some("file not found (note folder first, then [media].lookup_paths)")
    );
    assert_eq!(
        preview_issues("  ", &items),
        vec!["publish_text_empty", "unsupported_media_extension", "missing_media_file"]
    );
    let ok: Vec<MediaPreviewItem> = Vec::new();
    assert!(preview_issues("text", &ok).is_empty());
}
