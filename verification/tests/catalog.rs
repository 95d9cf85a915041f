use publo::badges::{
    catalog_entry_kind, catalog_job_states, sort_catalog_entries, CatalogEntryKind, CatalogJobRow,
};
use publo::catalog::{
    catalog_media_content_type, catalog_status_rank, is_path_within_roots, is_valid_markdown_request,
    sanitize_asset_path, static_content_type,
};
use publo::schedule::{build_multi_schedule_failure_message, common_content_group, multi_schedule_platforms};
use publo::jobs::PlatformArg;

fn row(path: &str, status: &str, platform: Option<&str>) -> CatalogJobRow {
    CatalogJobRow {
        file_path: path.to_string(),
        status: status.to_string(),
        platform: platform.map(|p| p.to_string()),
    }
}

#[test]
fn badges_are_grouped_deduplicated_and_ordered() {
    let rows = vec![
        row("/b.md", "published", Some("x")),
        row("/a.md", "failed", Some("linkedin")),
        row("/b.md", "ready", None),
        row("/b.md", "published", Some("X")),
        row("/a.md", "failed", Some("linkedin")),
        row("/b.md", "published", Some("linkedin")),
    ];
    let states = catalog_job_states(&rows);
    assert_eq!(states.len(), 2);
    assert_eq!(states[0].path, "/a.md");
    assert_eq!(states[0].badges.len(), 1);
    assert_eq!(states[1].path, "/b.md");
    let b: Vec<(String, Option<String>)> =
        states[1].badges.iter().map(|x| (x.status.clone(), x.platform.clone())).collect();
    assert_eq!(
        b,
        vec![
            ("ready".to_string(), None),
            ("published".to_string(), Some("linkedin".to_string())),
            ("published".to_string(), Some("x".to_string())),
        ]
    );
    assert!(catalog_job_states(&vec![]).is_empty());
}

#[test]
fn status_ranks_follow_the_catalog_order() {
    assert_eq!(catalog_status_rank("ready"), 0);
    assert_eq!(catalog_status_rank("disabled"), 7);
    assert_eq!(catalog_status_rank("mystery"), 99);
}

#[test]
fn tree_entries_show_directories_and_markdown_only() {
    assert_eq!(catalog_entry_kind(".git", true, false), None);
    assert_eq!(catalog_entry_kind("notes", true, false), Some(CatalogEntryKind::Dir));
    assert_eq!(catalog_entry_kind("Post.MD", false, true), Some(CatalogEntryKind::File));
    assert_eq!(catalog_entry_kind("image.png", false, true), None);
    assert_eq!(catalog_entry_kind("md", false, true), None);
    let sorted = sort_catalog_entries(vec![
        (false, "b.md".to_string()),
        (true, "z".to_string()),
        (false, "a.md".to_string()),
        (true, "c".to_string()),
    ]);
    assert_eq!(
        sorted,
        vec![
            (true, "c".to_string()),
            (true, "z".to_string()),
            (false, "a.md".to_string()),
            (false, "b.md".to_string()),
        ]
    );
}

#[test]
fn served_paths_are_checked() {
    assert_eq!(sanitize_asset_path(" /assets/app.js ").as_deref(), Some("assets/app.js"));
    assert_eq!(sanitize_asset_path("/"), None);
    assert_eq!(sanitize_asset_path("../etc/passwd"), None);
    assert_eq!(static_content_type("index.HTML"), "text/html; charset=utf-8");
    assert_eq!(static_content_type("blob"), "application/octet-stream");
    assert_eq!(catalog_media_content_type("a.PNG"), Some("image/png"));
    assert_eq!(catalog_media_content_type("a.gif"), None);
    let roots = vec![Some("/notes".to_string()), None];
    assert!(is_path_within_roots(&Some("/notes/a.md".to_string()), &roots));
    assert!(!is_path_within_roots(&Some("/other/a.md".to_string()), &roots));
    assert!(!is_path_within_roots(&None, &roots));
    assert!(is_valid_markdown_request("/notes/a.md", &Some("/notes/a.md".to_string()), &roots));
    assert!(!is_valid_markdown_request("notes/a.md", &Some("/notes/a.md".to_string()), &roots));
    assert!(!is_valid_markdown_request("/notes/a.txt", &Some("/notes/a.txt".to_string()), &roots));
}

#[test]
fn multi_schedule_platform_rules() {
    let sel = vec!["x".to_string(), "mastodon".to_string(), "linkedin".to_string()];
    assert_eq!(
        multi_schedule_platforms(vec![], "ready", &sel).ok(),
        Some(vec![PlatformArg::X, PlatformArg::Linkedin])
    );
    assert_eq!(
        multi_schedule_platforms(vec![PlatformArg::Linkedin], "blocked", &sel).ok(),
        Some(vec![PlatformArg::Linkedin])
    );
    assert_eq!(
        multi_schedule_platforms(vec![], "scheduled", &sel).err().as_deref(),
        Some("Only decision-queue jobs can be multi-scheduled.")
    );
    assert_eq!(
        multi_schedule_platforms(vec![], "ready", &vec![]).err().as_deref(),
        Some("Select at least one platform before scheduling.")
    );
    assert_eq!(common_content_group("  ", "new"), "new");
    assert_eq!(common_content_group("old", "new"), "old");
    assert_eq!(build_multi_schedule_failure_message(&vec![]), "One or more selected platforms failed to schedule.");
}
