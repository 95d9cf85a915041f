use publo::config::{
    capitalize_word, default_workspace_display_name, expand_home_alias, load_config,
    normalize_workspace_id, resolve_path_from_config, resolve_runtime_paths,
    resolve_runtime_paths_for_workspace, resolve_workspace_id, to_signature_layer, EnvSnapshot,
    SignatureConfigFile, WorkspaceFileConfig,
};

fn env() -> EnvSnapshot {
    EnvSnapshot {
        home: Some("/home/ana".to_string()),
        cwd: Some("/work".to_string()),
        publo_home: None,
        publo_config: None,
        publo_workspace: None,
        publo_env: None,
    }
}

#[test]
fn home_alias_expands_only_at_the_start() {
    let e = env();
    assert_eq!(expand_home_alias("~", &e), "/home/ana");
    assert_eq!(expand_home_alias("~/notes", &e), "/home/ana/notes");
    assert_eq!(expand_home_alias("a/~/b", &e), "a/~/b");
    assert_eq!(expand_home_alias("~ana", &e), "~ana");
}

#[test]
fn workspace_ids_are_normalized() {
    assert_eq!(normalize_workspace_id("  My Blog!! 2026 "), "my-blog-2026");
    assert_eq!(normalize_workspace_id("--"), "default");
    assert_eq!(normalize_workspace_id(""), "default");
    assert_eq!(normalize_workspace_id("ÉCOLE"), "cole");
    assert_eq!(normalize_workspace_id("a__b"), "a-b");
}

#[test]
fn display_names_capitalize_parts() {
    assert_eq!(default_workspace_display_name("my-blog_2026"), "My Blog 2026");
    assert_eq!(default_workspace_display_name("  "), "Default");
    assert_eq!(default_workspace_display_name("a--b"), "A B");
    assert_eq!(capitalize_word("élan"), "Élan");
    assert_eq!(capitalize_word(""), "");
}

#[test]
fn runtime_paths_follow_the_workspace_layout() {
    let e = env();
    let paths = resolve_runtime_paths_for_workspace("Team Notes", &e);
    assert_eq!(paths.publo_home, "/home/ana/.publo.so");
    assert_eq!(paths.global_config_path, "/home/ana/.publo.so/config.toml");
    assert_eq!(paths.workspace_key, "team-notes");
    assert_eq!(paths.workspace_dir, "/home/ana/.publo.so/workspaces/team-notes");
    assert_eq!(paths.workspace_config_path, "/home/ana/.publo.so/workspaces/team-notes/config.toml");
    assert_eq!(paths.env_path, "/home/ana/.publo.so/workspaces/team-notes/.env");
    assert_eq!(paths.db_default_path, "/home/ana/.publo.so/workspaces/team-notes/publo.db");
    assert_eq!(paths.publish_log_path, "/home/ana/.publo.so/workspaces/team-notes/publish-log.jsonl");
}

#[test]
fn workspace_selection_prefers_environment_then_global_default() {
    let mut e = env();
    assert_eq!(resolve_workspace_id(&e, &Some("Main".to_string())), "main");
    assert_eq!(resolve_workspace_id(&e, &None), "default");
    e.publo_workspace = Some(" Side ".to_string());
    assert_eq!(resolve_workspace_id(&e, &Some("Main".to_string())), "side");
    e.publo_home = Some("~/custom".to_string());
    e.publo_env = Some("rel/.env".to_string());
    let paths = resolve_runtime_paths(&e, &None);
    assert_eq!(paths.publo_home, "/home/ana/custom");
    assert_eq!(paths.workspace_key, "side");
    assert_eq!(paths.env_path, "/work/rel/.env");
}

#[test]
fn config_relative_paths_are_taken_from_the_config_dir() {
    let e = env();
    assert_eq!(resolve_path_from_config("/cfg", "media", &e), "/cfg/media");
    assert_eq!(resolve_path_from_config("/cfg", "/abs/media", &e), "/abs/media");
    assert_eq!(resolve_path_from_config("/cfg", "~/pics", &e), "/home/ana/pics");
}

#[test]
fn config_layers_workspace_over_global_over_defaults() {
    let e = env();
    let paths = resolve_runtime_paths_for_workspace("w", &e);
    let cfg = load_config(paths, &None, &None, &e);
    assert_eq!(cfg.workspace_id, "w");
    assert!(!cfg.pretty_json);
    assert_eq!(cfg.connect_timeout_seconds, 10);
    assert_eq!(cfg.request_timeout_seconds, 30);
    assert_eq!(cfg.api_host, "127.0.0.1");
    assert_eq!(cfg.api_port, 8787);
    assert_eq!(cfg.db_path, "/home/ana/.publo.so/workspaces/w/publo.db");
    assert_eq!(cfg.workspace_display_name, "W");
    assert!(cfg.media_lookup_paths.is_empty());
    assert!(cfg.publish_cli_password.is_none());

    let ws = WorkspaceFileConfig {
        id: Some("1b4e28ba-2fa1-11d2-883f-0016d3cca427".to_string()),
        display_name: Some("Journal".to_string()),
        pretty_json: Some(true),
        connect_seconds: Some(3),
        request_seconds: None,
        signature: Some(SignatureConfigFile { enabled: Some(true), text: Some("-- A".to_string()) }),
        linkedin_signature: None,
        x_signature: None,
        media_lookup_paths: Some(vec!["media".to_string()]),
        db_path: Some("data/x.db".to_string()),
        catalog_roots: None,
        publish_cli_password: Some("pw".to_string()),
    };
    let cfg = load_config(resolve_runtime_paths_for_workspace("w", &e), &None, &Some(ws), &e);
    assert_eq!(cfg.workspace_id, "1b4e28ba-2fa1-11d2-883f-0016d3cca427");
    assert!(cfg.pretty_json);
    assert_eq!(cfg.connect_timeout_seconds, 3);
    assert_eq!(cfg.request_timeout_seconds, 30);
    assert_eq!(cfg.workspace_display_name, "Journal");
    assert_eq!(cfg.media_lookup_paths, vec!["/home/ana/.publo.so/workspaces/w/media"]);
    assert_eq!(cfg.db_path, "/home/ana/.publo.so/workspaces/w/data/x.db");
    assert_eq!(cfg.global_signature.enabled, Some(true));
    assert_eq!(cfg.publish_cli_password.as_deref(), Some("pw"));
}

#[test]
fn signature_layer_copies_the_table() {
    let t = SignatureConfigFile { enabled: Some(false), text: Some("sig".to_string()) };
    let layer = to_signature_layer(Some(&t));
    assert_eq!(layer.enabled, Some(false));
    assert_eq!(layer.text.as_deref(), Some("sig"));
    let none = to_signature_layer(None);
    assert!(none.enabled.is_none() && none.text.is_none());
}
