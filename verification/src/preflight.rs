//! What a post is checked against before it is scheduled or published: the
//! note is read into its publish text and media, and the target platform's
//! rules, credentials and signature are applied to it.
use vstd::prelude::*;

use crate::auth::{load_linkedin_auth, load_x_auth, spec_env_non_empty, spec_env_var, EnvVars};
use crate::chars::str_eq;
use crate::config::RuntimeConfig;
use crate::errors::{is_missing_auth, is_validation, missing_auth, opt_seq, validation, AppError};
use crate::guard::{
    combine_text_and_media_for_fingerprint, compute_fingerprint, escape_little_text_plain,
    resolve_signature_text, spec_escape_little_text, spec_fingerprint, spec_fingerprint_source,
    spec_platform_layer, spec_signature_enabled, spec_signature_result, spec_signature_text,
    spec_text_sha256, text_sha256, PublishPlatformKind,
};
use crate::json::{json_members, push_member, Json, JsonValue};
use crate::media::{resolve_media_paths, spec_media_ok, spec_resolved, is_media_error};
use crate::note::{extract_obsidian_embeds, extract_publish_text, spec_embeds, spec_publish_text, spec_string_views};
use crate::platforms::{
    spec_str_array, spec_x_author_key, spec_x_scope_contains, string_array, x_author_key,
    x_scope_contains,
};
use crate::publish::{
    extract_cashtags, spec_cashtags, spec_x_post_text_result, spec_x_weighted_length,
    validate_linkedin_media_count, validate_x_media_count, validate_x_post_text,
    x_weighted_length,
};
use crate::text::{concat2, spec_decimal};

verus! {

/// A note read for publishing: its publish text, its media files, and the
/// digest of the whole file.
#[derive(Debug)]
pub struct ParsedPostInput {
    pub publish_text: String,
    pub media_paths: Vec<String>,
    pub file_sha256: String,
}

/// A note read for publishing: every media reference must resolve (see
/// `resolve_media_paths`), and some text must be left to publish.
pub open spec fn spec_parse_post_input(
    r: Result<ParsedPostInput, AppError>,
    file_path: Seq<char>,
    content: Seq<char>,
    lookups: Seq<Seq<char>>,
    existing: Seq<Seq<char>>,
) -> bool {
    let refs = spec_embeds(content);
    if exists|k: int| 0 <= k < refs.len() && !spec_media_ok(file_path, #[trigger] refs[k], lookups, existing) {
        r matches Err(e) && exists|k: int|
            0 <= k < refs.len() && !spec_media_ok(file_path, #[trigger] refs[k], lookups, existing)
                && (forall|j: int| 0 <= j < k ==> spec_media_ok(file_path, #[trigger] refs[j], lookups, existing))
                && is_media_error(e, file_path, refs[k], lookups, existing)
    } else if spec_publish_text(content).len() == 0 {
        r matches Err(e) && is_validation(
            e,
            "Post text is empty after removing metadata and image placeholders."@,
            Some("Add publishable text after the separator (---)."@),
            None,
        )
    } else {
        r matches Ok(p) && p.publish_text@ == spec_publish_text(content) && p.media_paths@.len()
            == refs.len() && (forall|k: int| 0 <= k < refs.len() ==> Some(#[trigger] p.media_paths@[k]@)
            == spec_resolved(file_path, refs[k], lookups, existing)) && p.file_sha256@ == spec_text_sha256(
            content,
        )
    }
}

/// Reads the note at `file_path`, whose text is `content`, for publishing;
/// `existing_files` are the candidate media paths that are files.
pub fn parse_post_input(
    file_path: &str,
    content: &str,
    media_lookup_paths: &Vec<String>,
    existing_files: &Vec<String>,
) -> (r: Result<ParsedPostInput, AppError>)
    ensures
        spec_parse_post_input(
            r,
            file_path@,
            content@,
            spec_string_views(media_lookup_paths@),
            spec_string_views(existing_files@),
        ),
{
    let refs = extract_obsidian_embeds(content);
    let ghost rv = spec_string_views(refs@);
    proof {
        assert forall|k: int| 0 <= k < refs@.len() implies #[trigger] refs@[k]@ == rv[k] by {}
    }
    let media_paths = match resolve_media_paths(file_path, &refs, media_lookup_paths, existing_files) {
        Ok(v) => v,
        Err(e) => {
            proof {
                let lookups = spec_string_views(media_lookup_paths@);
                let existing = spec_string_views(existing_files@);
                let k = choose|k: int|
                    0 <= k < refs@.len() && !spec_media_ok(file_path@, #[trigger] refs@[k]@, lookups, existing)
                        && (forall|j: int| 0 <= j < k ==> spec_media_ok(file_path@, #[trigger] refs@[j]@, lookups, existing))
                        && is_media_error(e, file_path@, refs@[k]@, lookups, existing);
                assert(rv[k] == refs@[k]@);
                assert forall|j: int| 0 <= j < k implies spec_media_ok(file_path@, #[trigger] rv[j], lookups, existing) by {
                    assert(rv[j] == refs@[j]@);
                }
            }
            return Err(e);
        },
    };
    proof {
        let lookups = spec_string_views(media_lookup_paths@);
        let existing = spec_string_views(existing_files@);
        assert forall|k: int| 0 <= k < rv.len() implies spec_media_ok(file_path@, #[trigger] rv[k], lookups, existing) by {
            assert(rv[k] == refs@[k]@);
        }
    }
    let publish_text = extract_publish_text(content);
    if publish_text.as_str().unicode_len() == 0 {
        return Err(
            validation(
                "Post text is empty after removing metadata and image placeholders.".to_owned(),
                Some("Add publishable text after the separator (---)."),
                None,
            ),
        );
    }
    let file_sha256 = text_sha256(content);
    Ok(ParsedPostInput { publish_text, media_paths, file_sha256 })
}

/// A job that passed its preflight: the digests it will be checked against
/// and what the preflight found.
#[derive(Debug)]
pub struct JobPreflightResult {
    pub file_sha256: String,
    pub text_sha256: String,
    pub fingerprint: String,
    pub details: JsonValue,
}

/// The signature text that is appended: empty when none is.
pub open spec fn spec_signature_suffix(config: RuntimeConfig, platform: PublishPlatformKind, cli_override: Option<bool>) -> Seq<char> {
    if spec_signature_enabled(config, platform, cli_override) {
        match spec_signature_text(config, platform) {
            Some(t) => t,
            None => seq![],
        }
    } else {
        seq![]
    }
}

/// Whether the signature step fails: enabled without a text.
pub open spec fn spec_signature_fails(config: RuntimeConfig, platform: PublishPlatformKind, cli_override: Option<bool>) -> bool {
    spec_signature_enabled(config, platform, cli_override) && match spec_signature_text(config, platform) {
        Some(t) => t.len() == 0,
        None => true,
    }
}

/// The LinkedIn credentials are complete.
pub open spec fn spec_linkedin_auth_ok(env: EnvVars) -> bool {
    spec_env_var(env, "LINKEDIN_ACCESS_TOKEN"@) is Some && spec_env_var(env, "LINKEDIN_AUTHOR_URN"@) is Some
}

/// The X credentials are complete.
pub open spec fn spec_x_auth_ok(env: EnvVars) -> bool {
    spec_env_non_empty(env, "X_ACCESS_TOKEN"@) is Some
}

/// The error of too many LinkedIn images.
pub open spec fn is_linkedin_count_error(e: AppError, n: nat) -> bool {
    is_validation(
        e,
        "LinkedIn multi-image supports at most 20 images; found "@ + spec_decimal(n) + "."@,
        Some("Reduce image count to 20 or fewer and retry."@),
        None,
    )
}

/// The error of too many X images.
pub open spec fn is_x_count_error(e: AppError, n: nat) -> bool {
    is_validation(
        e,
        "X supports at most 4 images per post; found "@ + spec_decimal(n) + "."@,
        Some("Reduce image count to 4 or fewer and retry."@),
        None,
    )
}

/// The view of a list of strings as a JSON array.
pub open spec fn spec_paths_json(paths: Seq<String>) -> Json {
    spec_str_array(spec_string_views(paths))
}

/// The preflight of a LinkedIn job.
pub open spec fn spec_linkedin_preflight(
    r: Result<JobPreflightResult, AppError>,
    parsed: ParsedPostInput,
    media_signature: Seq<char>,
    config: RuntimeConfig,
    env: EnvVars,
) -> bool {
    let n = parsed.media_paths@.len();
    if n > 20 {
        r matches Err(e) && is_linkedin_count_error(e, n)
    } else if !spec_linkedin_auth_ok(env) {
        r matches Err(e) && crate::auth::spec_linkedin_auth(Err(e), env)
    } else if spec_signature_fails(config, PublishPlatformKind::Linkedin, None) {
        r matches Err(e) && spec_signature_result(Err(e), config, PublishPlatformKind::Linkedin, None)
    } else {
        let raw = parsed.publish_text@ + spec_signature_suffix(config, PublishPlatformKind::Linkedin, None);
        let urn = spec_env_var(env, "LINKEDIN_AUTHOR_URN"@)->Some_0;
        r matches Ok(p) && p.file_sha256@ == parsed.file_sha256@ && p.text_sha256@ == spec_text_sha256(raw)
            && p.fingerprint@ == spec_fingerprint("linkedin"@, urn, spec_fingerprint_source(raw, media_signature))
            && p.details@ == Json::Object(
            seq![
                ("platform"@, Json::Str("linkedin"@)),
                ("media_count"@, Json::UInt(n as u64)),
                ("media_paths"@, spec_paths_json(parsed.media_paths@)),
                ("text"@, Json::Str(raw)),
                ("commentary_escaped"@, Json::Str(spec_escape_little_text(raw))),
                ("author"@, Json::Str(urn)),
            ],
        )
    }
}

/// The preflight of an X job.
pub open spec fn spec_x_preflight(
    r: Result<JobPreflightResult, AppError>,
    publish_mode: Option<Seq<char>>,
    parsed: ParsedPostInput,
    media_signature: Seq<char>,
    config: RuntimeConfig,
    env: EnvVars,
) -> bool {
    let n = parsed.media_paths@.len();
    let text = parsed.publish_text@ + spec_signature_suffix(config, PublishPlatformKind::X, None);
    if publish_mode == Some("thread"@) {
        r matches Err(e) && is_validation(
            e,
            "X thread publish mode is not implemented yet."@,
            Some("Use X single mode for now."@),
            None,
        )
    } else if n > 4 {
        r matches Err(e) && is_x_count_error(e, n)
    } else if !spec_x_auth_ok(env) {
        r matches Err(e) && crate::auth::spec_x_auth(Err(e), env)
    } else if spec_signature_fails(config, PublishPlatformKind::X, None) {
        r matches Err(e) && spec_signature_result(Err(e), config, PublishPlatformKind::X, None)
    } else if n > 0 && !spec_x_scope_contains(env, "media.write"@) {
        r matches Err(e) && is_missing_auth(
            e,
            "X media upload requires media.write scope, but current token scope does not include it."@,
            Some("Set X_SCOPES to include media.write, run `publo auth x login`, then retry."@),
            Some("publo auth x login"@),
        )
    } else if !spec_x_post_text_result(Ok(()), text, false, false) {
        r matches Err(e) && spec_x_post_text_result(Err(e), text, false, false)
    } else {
        let key = spec_x_author_key(env);
        r matches Ok(p) && p.file_sha256@ == parsed.file_sha256@ && p.text_sha256@ == spec_text_sha256(text)
            && p.fingerprint@ == spec_fingerprint("x"@, key, spec_fingerprint_source(text, media_signature))
            && p.details@ == Json::Object(
            seq![
                ("platform"@, Json::Str("x"@)),
                ("media_count"@, Json::UInt(n as u64)),
                ("media_paths"@, spec_paths_json(parsed.media_paths@)),
                ("text"@, Json::Str(text)),
                (
                    "local_preflight"@,
                    Json::Object(
                        seq![
                            ("weighted_length"@, Json::UInt(spec_x_weighted_length(text) as u64)),
                            ("cashtag_count"@, Json::UInt(spec_cashtags(text).len() as u64)),
                        ],
                    ),
                ),
                ("author"@, Json::Str(key)),
            ],
        )
    }
}

/// The preflight of a job: by its platform, or the error of a job without a
/// known platform.
pub open spec fn spec_preflight(
    r: Result<JobPreflightResult, AppError>,
    platform: Option<Seq<char>>,
    publish_mode: Option<Seq<char>>,
    parsed: ParsedPostInput,
    media_signature: Seq<char>,
    config: RuntimeConfig,
    env: EnvVars,
) -> bool {
    match platform {
        None => r matches Err(e) && is_validation(
            e,
            "Job has no platform yet."@,
            Some("Assign a platform when scheduling."@),
            None,
        ),
        Some(p) => if p == "linkedin"@ {
            spec_linkedin_preflight(r, parsed, media_signature, config, env)
        } else if p == "x"@ {
            spec_x_preflight(r, publish_mode, parsed, media_signature, config, env)
        } else {
            r matches Err(e) && is_validation(
                e,
                "Unsupported job platform: "@ + p,
                Some("Use --platform linkedin|x."@),
                None,
            )
        },
    }
}

fn text_plus(text: &str, suffix: &Option<String>) -> (r: String)
    ensures
        r@ == text@ + match opt_seq(*suffix) {
            Some(s) => s,
            None => seq![],
        },
{
    match suffix {
        Some(s) => concat2(text, s.as_str()),
        None => {
            proof {
                assert(text@ + Seq::<char>::empty() =~= text@);
            }
            text.to_owned()
        },
    }
}

fn linkedin_preflight(
    parsed: &ParsedPostInput,
    media_signature: &str,
    config: &RuntimeConfig,
    env: &EnvVars,
) -> (r: Result<JobPreflightResult, AppError>)
    ensures
        spec_linkedin_preflight(r, *parsed, media_signature@, *config, *env),
{
    let n = parsed.media_paths.len();
    match validate_linkedin_media_count(n) {
        Ok(()) => {},
        Err(e) => return Err(e),
    }
    let auth = match load_linkedin_auth(env) {
        Ok(a) => a,
        Err(e) => return Err(e),
    };
    let signature = match resolve_signature_text(config, PublishPlatformKind::Linkedin, None) {
        Ok(s) => s,
        Err(e) => return Err(e),
    };
    let raw = text_plus(parsed.publish_text.as_str(), &signature);
    let escaped = escape_little_text_plain(raw.as_str());
    let text_digest = text_sha256(raw.as_str());
    let source = combine_text_and_media_for_fingerprint(raw.as_str(), media_signature);
    let fingerprint = compute_fingerprint("linkedin", auth.author_urn.as_str(), source.as_str());
    let mut m: Vec<(String, JsonValue)> = Vec::new();
    proof {
        assert(json_members(m) =~= Seq::<(Seq<char>, Json)>::empty());
    }
    push_member(&mut m, "platform", JsonValue::string("linkedin"));
    push_member(&mut m, "media_count", JsonValue::UInt(n as u64));
    push_member(&mut m, "media_paths", string_array(&parsed.media_paths));
    push_member(&mut m, "text", JsonValue::string(raw.as_str()));
    push_member(&mut m, "commentary_escaped", JsonValue::string(escaped.as_str()));
    push_member(&mut m, "author", JsonValue::string(auth.author_urn.as_str()));
    let ghost urn = auth.author_urn@;
    let ghost expected: Seq<(Seq<char>, Json)> = seq![
        ("platform"@, Json::Str("linkedin"@)),
        ("media_count"@, Json::UInt(n as u64)),
        ("media_paths"@, spec_paths_json(parsed.media_paths@)),
        ("text"@, Json::Str(raw@)),
        ("commentary_escaped"@, Json::Str(spec_escape_little_text(raw@))),
        ("author"@, Json::Str(urn)),
    ];
    proof {
        assert(json_members(m) =~= expected);
    }
    let details = JsonValue::Object(m);
    proof {
        assert(details@ == Json::Object(expected));
    }
    Ok(
        JobPreflightResult {
            file_sha256: parsed.file_sha256.clone(),
            text_sha256: text_digest,
            fingerprint,
            details,
        },
    )
}

fn x_preflight(
    publish_mode: &Option<String>,
    parsed: &ParsedPostInput,
    media_signature: &str,
    config: &RuntimeConfig,
    env: &EnvVars,
) -> (r: Result<JobPreflightResult, AppError>)
    requires
        parsed.publish_text@.len() + match spec_signature_text(*config, PublishPlatformKind::X) {
            Some(t) => t.len(),
            None => 0,
        } <= usize::MAX / 23,
    ensures
        spec_x_preflight(r, opt_seq(*publish_mode), *parsed, media_signature@, *config, *env),
{
    match publish_mode {
        Some(m) => {
            if str_eq(m.as_str(), "thread") {
                return Err(
                    validation(
                        "X thread publish mode is not implemented yet.".to_owned(),
                        Some("Use X single mode for now."),
                        None,
                    ),
                );
            }
        },
        None => {},
    }
    let n = parsed.media_paths.len();
    match validate_x_media_count(n) {
        Ok(()) => {},
        Err(e) => return Err(e),
    }
    match load_x_auth(env) {
        Ok(_) => {},
        Err(e) => return Err(e),
    }
    let signature = match resolve_signature_text(config, PublishPlatformKind::X, None) {
        Ok(s) => s,
        Err(e) => return Err(e),
    };
    let text = text_plus(parsed.publish_text.as_str(), &signature);
    if n > 0 && !x_scope_contains(env, "media.write") {
        return Err(
            missing_auth(
                "X media upload requires media.write scope, but current token scope does not include it.".to_owned(),
                Some("Set X_SCOPES to include media.write, run `publo auth x login`, then retry."),
                Some("publo auth x login"),
            ),
        );
    }
    match validate_x_post_text(text.as_str(), false, false) {
        Ok(()) => {},
        Err(e) => return Err(e),
    }
    let text_digest = text_sha256(text.as_str());
    let key = x_author_key(env);
    let source = combine_text_and_media_for_fingerprint(text.as_str(), media_signature);
    let fingerprint = compute_fingerprint("x", key.as_str(), source.as_str());
    let weighted = x_weighted_length(text.as_str());
    let cashtags = extract_cashtags(text.as_str());
    proof {
        assert(spec_string_views(cashtags@).len() == cashtags@.len());
    }
    let mut local: Vec<(String, JsonValue)> = Vec::new();
    proof {
        assert(json_members(local) =~= Seq::<(Seq<char>, Json)>::empty());
    }
    push_member(&mut local, "weighted_length", JsonValue::UInt(weighted as u64));
    push_member(&mut local, "cashtag_count", JsonValue::UInt(cashtags.len() as u64));
    let ghost local_expected: Seq<(Seq<char>, Json)> = seq![
        ("weighted_length"@, Json::UInt(spec_x_weighted_length(text@) as u64)),
        ("cashtag_count"@, Json::UInt(spec_cashtags(text@).len() as u64)),
    ];
    proof {
        assert(json_members(local) =~= local_expected);
    }
    let mut m: Vec<(String, JsonValue)> = Vec::new();
    proof {
        assert(json_members(m) =~= Seq::<(Seq<char>, Json)>::empty());
    }
    push_member(&mut m, "platform", JsonValue::string("x"));
    push_member(&mut m, "media_count", JsonValue::UInt(n as u64));
    push_member(&mut m, "media_paths", string_array(&parsed.media_paths));
    push_member(&mut m, "text", JsonValue::string(text.as_str()));
    push_member(&mut m, "local_preflight", JsonValue::Object(local));
    push_member(&mut m, "author", JsonValue::string(key.as_str()));
    let ghost expected: Seq<(Seq<char>, Json)> = seq![
        ("platform"@, Json::Str("x"@)),
        ("media_count"@, Json::UInt(n as u64)),
        ("media_paths"@, spec_paths_json(parsed.media_paths@)),
        ("text"@, Json::Str(text@)),
        ("local_preflight"@, Json::Object(local_expected)),
        ("author"@, Json::Str(key@)),
    ];
    proof {
        assert(json_members(m) =~= expected);
    }
    let details = JsonValue::Object(m);
    proof {
        assert(details@ == Json::Object(expected));
    }
    Ok(
        JobPreflightResult {
            file_sha256: parsed.file_sha256.clone(),
            text_sha256: text_digest,
            fingerprint,
            details,
        },
    )
}

/// The preflight of a job on `platform` (its stored name) for the note
/// `parsed`, whose media signature is `media_signature`.
pub fn preflight_job(
    platform: &Option<String>,
    publish_mode: &Option<String>,
    parsed: &ParsedPostInput,
    media_signature: &str,
    config: &RuntimeConfig,
    env: &EnvVars,
) -> (r: Result<JobPreflightResult, AppError>)
    requires
        parsed.publish_text@.len() + match spec_signature_text(*config, PublishPlatformKind::X) {
            Some(t) => t.len(),
            None => 0,
        } <= usize::MAX / 23,
    ensures
        spec_preflight(r, opt_seq(*platform), opt_seq(*publish_mode), *parsed, media_signature@, *config, *env),
{
    match platform {
        None => Err(
            validation(
                "Job has no platform yet.".to_owned(),
                Some("Assign a platform when scheduling."),
                None,
            ),
        ),
        Some(p) => {
            if str_eq(p.as_str(), "linkedin") {
                linkedin_preflight(parsed, media_signature, config, env)
            } else if str_eq(p.as_str(), "x") {
                x_preflight(publish_mode, parsed, media_signature, config, env)
            } else {
                let message = concat2("Unsupported job platform: ", p.as_str());
                Err(validation(message, Some("Use --platform linkedin|x."), None))
            }
        },
    }
}

} // verus!
