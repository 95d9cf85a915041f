//! The checks a command makes before it acts: the publish password, what
//! `serve` needs on disk, the workspace a switch names, and the display name
//! `init` settles on.
use vstd::prelude::*;

use crate::chars::str_eq;
use crate::config::{spec_default_workspace_display_name, RuntimeConfig};
use crate::errors::{is_validation, opt_seq, opt_str, validation, AppError};
use crate::text::{concat2, concat4, concat5, spec_trim, trim};

verus! {

/// Real publish commands need `--pass`, equal to the configured password.
pub open spec fn spec_publish_pass_result(
    r: Result<(), AppError>,
    passed: Option<Seq<char>>,
    configured: Option<Seq<char>>,
) -> bool {
    match passed {
        None => r matches Err(e) && is_validation(
            e,
            "Missing publish password."@,
            Some("Pass --pass <publish-pass> for real publish commands."@),
            None,
        ),
        Some(p) => if configured == Some(p) {
            r is Ok
        } else {
            r matches Err(e) && is_validation(
                e,
                "Invalid publish password."@,
                Some(
                    "Pass the correct --pass value, or update [security].publish_cli_password in config."@,
                ),
                None,
            )
        },
    }
}

/// Checks the `--pass` of a real publish command against the configured
/// `[security].publish_cli_password`; with none configured no value passes.
pub fn validate_publish_pass(passed: Option<&str>, config: &RuntimeConfig) -> (r: Result<(), AppError>)
    ensures
        spec_publish_pass_result(r, opt_str(passed), opt_seq(config.publish_cli_password)),
{
    let provided = match passed {
        Some(p) => p,
        None => {
            return Err(
                validation(
                    "Missing publish password.".to_owned(),
                    Some("Pass --pass <publish-pass> for real publish commands."),
                    None,
                ),
            );
        },
    };
    match &config.publish_cli_password {
        Some(expected) => {
            if str_eq(provided, expected.as_str()) {
                return Ok(());
            }
        },
        None => {},
    }
    Err(
        validation(
            "Invalid publish password.".to_owned(),
            Some(
                "Pass the correct --pass value, or update [security].publish_cli_password in config.",
            ),
            None,
        ),
    )
}

/// What the file system says of a configured directory.
#[derive(Debug)]
pub struct PathState {
    pub exists: bool,
    pub is_dir: bool,
}

/// A catalog root that `serve` can use.
pub open spec fn spec_root_ok(s: PathState) -> bool {
    s.exists && s.is_dir
}

/// The error for a catalog root that `serve` cannot use.
pub open spec fn spec_root_error(e: AppError, root: Seq<char>, s: PathState) -> bool {
    if !s.exists {
        is_validation(
            e,
            "Catalog root does not exist: "@ + root,
            Some("Fix [catalog].roots paths in workspace config.toml and retry."@),
            Some("publo paths"@),
        )
    } else {
        is_validation(
            e,
            "Catalog root is not a directory: "@ + root,
            Some("Use directory paths in [catalog].roots and retry."@),
            Some("publo paths"@),
        )
    }
}

/// What `serve` needs, checked in this order: the global config, the
/// workspace config, at least one catalog root, each root an existing directory.
pub open spec fn spec_serve_result(
    r: Result<(), AppError>,
    config: RuntimeConfig,
    global_config_exists: bool,
    workspace_config_exists: bool,
    roots: Seq<PathState>,
) -> bool {
    if !global_config_exists {
        r matches Err(e) && is_validation(
            e,
            "Global config not found: "@ + config.paths.global_config_path@,
            Some("Run `publo init` to create required files."@),
            Some("publo init"@),
        )
    } else if !workspace_config_exists {
        r matches Err(e) && is_validation(
            e,
            "Workspace config not found for workspace '"@ + config.paths.workspace_key@ + "': "@
                + config.paths.workspace_config_path@,
            Some("Run `publo init` to create required files."@),
            Some("publo init --workspace-id <id> --display-name \"My Workspace\""@),
        )
    } else if config.catalog_roots@.len() == 0 {
        r matches Err(e) && is_validation(
            e,
            "No catalog roots configured."@,
            Some("Set [catalog].roots in workspace config.toml, then retry serve."@),
            Some("publo paths"@),
        )
    } else if forall|k: int| 0 <= k < roots.len() ==> spec_root_ok(#[trigger] roots[k]) {
        r is Ok
    } else {
        r matches Err(e) && exists|k: int|
            0 <= k < roots.len() && !spec_root_ok(#[trigger] roots[k]) && (forall|j: int|
                0 <= j < k ==> spec_root_ok(#[trigger] roots[j])) && spec_root_error(
                e,
                config.catalog_roots@[k]@,
                roots[k],
            )
    }
}

/// Checks what `serve` needs; `roots[k]` is what the file system says of the
/// `k`-th catalog root.
pub fn validate_serve_requirements(
    config: &RuntimeConfig,
    global_config_exists: bool,
    workspace_config_exists: bool,
    roots: &Vec<PathState>,
) -> (r: Result<(), AppError>)
    requires
        roots@.len() == config.catalog_roots@.len(),
    ensures
        spec_serve_result(r, *config, global_config_exists, workspace_config_exists, roots@),
{
    if !global_config_exists {
        let message = concat2("Global config not found: ", config.paths.global_config_path.as_str());
        return Err(
            validation(message, Some("Run `publo init` to create required files."), Some("publo init")),
        );
    }
    if !workspace_config_exists {
        let message = concat4(
            "Workspace config not found for workspace '",
            config.paths.workspace_key.as_str(),
            "': ",
            config.paths.workspace_config_path.as_str(),
        );
        return Err(
            validation(
                message,
                Some("Run `publo init` to create required files."),
                Some("publo init --workspace-id <id> --display-name \"My Workspace\""),
            ),
        );
    }
    if config.catalog_roots.len() == 0 {
        return Err(
            validation(
                "No catalog roots configured.".to_owned(),
                Some("Set [catalog].roots in workspace config.toml, then retry serve."),
                Some("publo paths"),
            ),
        );
    }
    let mut i: usize = 0;
    while i < roots.len()
        invariant
            roots@.len() == config.catalog_roots@.len(),
            global_config_exists,
            workspace_config_exists,
            config.catalog_roots@.len() > 0,
            0 <= i <= roots@.len(),
            forall|j: int| 0 <= j < i ==> spec_root_ok(#[trigger] roots@[j]),
        decreases roots.len() - i,
    {
        let state = &roots[i];
        proof {
            assert(state == roots@[i as int]);
        }
        if !state.exists {
            let message = concat2(
                "Catalog root does not exist: ",
                config.catalog_roots[i].as_str(),
            );
            return Err(
                validation(
                    message,
                    Some("Fix [catalog].roots paths in workspace config.toml and retry."),
                    Some("publo paths"),
                ),
            );
        }
        if !state.is_dir {
            let message = concat2(
                "Catalog root is not a directory: ",
                config.catalog_roots[i].as_str(),
            );
            return Err(
                validation(
                    message,
                    Some("Use directory paths in [catalog].roots and retry."),
                    Some("publo paths"),
                ),
            );
        }
        i = i + 1;
    }
    Ok(())
}

/// The display name `init` settles on: the one given, trimmed, unless blank;
/// else the default one.
pub open spec fn spec_selected_display_name(given: Seq<char>, default_name: Seq<char>) -> Seq<char> {
    if spec_trim(given).len() == 0 {
        default_name
    } else {
        spec_trim(given)
    }
}

/// The display name `init` settles on, from what was given or typed.
pub fn select_display_name(given: &str, default_name: &str) -> (name: String)
    ensures
        name@ == spec_selected_display_name(given@, default_name@),
{
    let t = trim(given);
    if t.as_str().unicode_len() == 0 {
        default_name.to_owned()
    } else {
        t
    }
}

/// The checks of `workspace switch`: the workspace's config and the global
/// config must exist.
pub open spec fn spec_switch_result(
    r: Result<(), AppError>,
    workspace_key: Seq<char>,
    workspace_config_path: Seq<char>,
    workspace_config_exists: bool,
    global_config_path: Seq<char>,
    global_config_exists: bool,
) -> bool {
    if !workspace_config_exists {
        r matches Err(e) && is_validation(
            e,
            "Workspace '"@ + workspace_key + "' does not exist. Expected config at "@
                + workspace_config_path,
            Some("Create it first with `publo init --workspace-id <id> --display-name \"Name\"`."@),
            Some("publo init --workspace-id <id> --display-name \"Name\""@),
        )
    } else if !global_config_exists {
        r matches Err(e) && is_validation(
            e,
            "Global config not found: "@ + global_config_path,
            Some("Run `publo init` first."@),
            Some("publo init"@),
        )
    } else {
        r is Ok
    }
}

/// Checks that a workspace switch can go ahead.
pub fn validate_workspace_switch(
    workspace_key: &str,
    workspace_config_path: &str,
    workspace_config_exists: bool,
    global_config_path: &str,
    global_config_exists: bool,
) -> (r: Result<(), AppError>)
    ensures
        spec_switch_result(
            r,
            workspace_key@,
            workspace_config_path@,
            workspace_config_exists,
            global_config_path@,
            global_config_exists,
        ),
{
    if !workspace_config_exists {
        let message = concat4(
            "Workspace '",
            workspace_key,
            "' does not exist. Expected config at ",
            workspace_config_path,
        );
        return Err(
            validation(
                message,
                Some("Create it first with `publo init --workspace-id <id> --display-name \"Name\"`."),
                Some("publo init --workspace-id <id> --display-name \"Name\""),
            ),
        );
    }
    if !global_config_exists {
        let message = concat2("Global config not found: ", global_config_path);
        return Err(validation(message, Some("Run `publo init` first."), Some("publo init")));
    }
    Ok(())
}

/// A publish reads an existing note: the error for a path with no file.
pub fn check_content_file(path: &str, exists: bool) -> (r: Result<(), AppError>)
    ensures
        r is Ok <==> exists,
        r matches Err(e) ==> is_validation(
            e,
            "Content file does not exist: "@ + path@,
            Some("Check the file path and run the same command again."@),
            None,
        ),
{
    if exists {
        return Ok(());
    }
    Err(
        validation(
            crate::text::concat2("Content file does not exist: ", path),
            Some("Check the file path and run the same command again."),
            None,
        ),
    )
}

} // verus!
