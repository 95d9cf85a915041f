use publo::errors::AppError;
use publo::setup::{
    ensure_workspace_config_identity, format_env_value, global_config_template,
    set_default_workspace_in_global_config, upsert_env_text, workspace_config_template,
    workspace_env_example_template, workspace_env_template, WorkspaceIdentity,
};

#[test]
fn templates_carry_the_workspace_choices() {
    let default = global_config_template("default");
    assert!(default.contains("[workspace]\ndefault = \"default\"\n"));
    let other = global_config_template("blog");
    assert!(other.contains("default = \"blog\""));
    assert!(!other.contains("default = \"default\""));
    let ws = workspace_config_template("1234", "My \"Blog\"");
    assert!(ws.contains("[workspace]\nid = \"1234\"\ndisplay_name = \"My \\\"Blog\\\"\""));
    assert_eq!(workspace_env_template(), workspace_env_example_template());
    assert!(workspace_env_template().contains("SUBSTACK_SESSION_TOKEN="));
}

#[test]
fn default_workspace_line_is_replaced_inserted_or_appended() {
    assert_eq!(
        set_default_workspace_in_global_config("[workspace]\ndefault = \"a\"\n[api]\nport = 1\n", "b"),
        "[workspace]\ndefault = \"b\"\n[api]\nport = 1\n"
    );
    assert_eq!(
        set_default_workspace_in_global_config("[workspace]\n[api]", "b"),
        "[workspace]\ndefault = \"b\"\n[api]"
    );
    assert_eq!(
        set_default_workspace_in_global_config("[api]\nport = 1\n", "b"),
        "[api]\nport = 1\n\n[workspace]\ndefault = \"b\"\n"
    );
    assert_eq!(set_default_workspace_in_global_config("", "b"), "[workspace]\ndefault = \"b\"");
    assert_eq!(
        set_default_workspace_in_global_config("[api]\n\n", "b"),
        "[api]\n\n[workspace]\ndefault = \"b\"\n"
    );
}

#[test]
fn env_values_are_quoted_when_needed() {
    assert_eq!(format_env_value("plain"), "plain");
    assert_eq!(format_env_value("two words"), "\"two words\"");
    assert_eq!(format_env_value("a#b"), "\"a#b\"");
    assert_eq!(format_env_value("say \"hi\"\n"), "\"say \\\"hi\\\"\\n\"");
    assert_eq!(format_env_value("back\\slash"), "back\\slash");
    assert_eq!(format_env_value("it's\t"), "\"it's\\t\"");
}

#[test]
fn env_upsert_replaces_first_live_key_or_appends() {
    let raw = Some("# X_TOKEN=old\nX_TOKEN = stale\nOTHER=1".to_string());
    assert_eq!(upsert_env_text(&raw, "X_TOKEN", "new"), "# X_TOKEN=old\nX_TOKEN=new\nOTHER=1\n");
    assert_eq!(upsert_env_text(&raw, "NEW", "a b"), "# X_TOKEN=old\nX_TOKEN = stale\nOTHER=1\nNEW=\"a b\"\n");
    assert_eq!(upsert_env_text(&None, "K", "v"), "K=v\n");
}

#[test]
fn workspace_identity_is_kept_checked_or_created() {
    let uuid = "67e55044-10b1-426f-9247-bb680e5fe0c8";
    let existing = format!("[workspace]\nid = \"{uuid}\"\n");
    match ensure_workspace_config_identity(&existing, "/w/config.toml", "new-id") {
        Ok(WorkspaceIdentity::Existing(id)) => assert_eq!(id, uuid),
        _ => panic!("expected existing identity"),
    }
    match ensure_workspace_config_identity("[workspace]\nid = nope\n", "/w/config.toml", "x") {
        Err(AppError::Validation { message, .. }) => {
            assert_eq!(message, "Workspace config has invalid [workspace].id: /w/config.toml")
        }
        _ => panic!("expected invalid id"),
    }
    match ensure_workspace_config_identity("# c\n[workspace]\nname = 1", "/w/c.toml", uuid) {
        Ok(WorkspaceIdentity::Created { id, config }) => {
            assert_eq!(id, uuid);
            assert_eq!(config, format!("# c\n[workspace]\nid = \"{uuid}\"\nname = 1\n"));
        }
        _ => panic!("expected created identity"),
    }
    match ensure_workspace_config_identity("[api]\n", "/w/c.toml", uuid) {
        Err(AppError::Validation { message, suggestion, .. }) => {
            assert_eq!(message, "Workspace config has no [workspace] section: /w/c.toml");
            assert_eq!(suggestion.as_deref(), Some("Add a [workspace] section and run `publo init` again."));
        }
        _ => panic!("expected missing section"),
    }
}
