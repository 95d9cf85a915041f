//! The decisions of `publish linkedin` and `publish x` before and after the
//! provider is called: the checked post with its signature, fingerprint and
//! duplicate guard; the debug report; and the success report.
use vstd::prelude::*;

use crate::auth::{
    load_linkedin_auth, load_x_auth, spec_env_non_empty, spec_env_var, EnvVars, LinkedinAuth, XAuth,
};
use crate::config::RuntimeConfig;
use crate::errors::{is_missing_auth, is_validation, missing_auth, opt_seq, AppError};
use crate::guard::{
    combine_text_and_media_for_fingerprint, compute_fingerprint, escape_little_text_plain,
    maybe_block_duplicate, resolve_signature_text, signature_cli_override,
    spec_duplicate_result, spec_escape_little_text, spec_fingerprint, spec_fingerprint_source,
    spec_signature_cli_override, spec_signature_result, spec_text_sha256, text_sha256,
    PublishLogEntry, PublishPlatformKind,
};
use crate::json::{json_members, push_member, Json, JsonValue};
use crate::note::spec_string_views;
use crate::platforms::{
    linkedin_payload, linkedin_preview_media_ids, spec_linkedin_payload, spec_linkedin_preview_ids,
    spec_numbered_placeholders, spec_x_author_key, spec_x_payload, spec_x_scope_contains,
    string_array, x_author_key, x_payload, x_preview_media_ids, x_scope_contains,
};
use crate::preflight::{
    is_linkedin_count_error, is_x_count_error, spec_linkedin_auth_ok, spec_paths_json,
    spec_signature_fails, spec_signature_suffix, spec_x_auth_ok, ParsedPostInput,
};
use crate::publish::{
    extract_cashtags, spec_cashtags, spec_x_post_text_result, spec_x_weighted_length,
    validate_linkedin_media_count, validate_x_media_count, validate_x_post_text,
    x_weighted_length,
};
use crate::text::{concat2, spec_trim, trim};

verus! {

/// A LinkedIn post that passed its checks, ready to be sent.
#[derive(Debug)]
pub struct LinkedinPlan {
    pub commentary_raw: String,
    pub commentary: String,
    pub signature_applied: bool,
    pub auth: LinkedinAuth,
    pub fingerprint: String,
    pub file_sha256: String,
    pub text_sha256: String,
}

/// The checks of `publish linkedin`, in order: the image count, the
/// signature, the credentials, then the duplicate guard.
pub open spec fn spec_linkedin_plan(
    r: Result<LinkedinPlan, AppError>,
    parsed: ParsedPostInput,
    media_signature: Seq<char>,
    config: RuntimeConfig,
    env: EnvVars,
    add_signature: bool,
    no_signature: bool,
    allow_duplicate: bool,
    log: Seq<Result<PublishLogEntry, String>>,
) -> bool {
    let n = parsed.media_paths@.len();
    let ov = spec_signature_cli_override(add_signature, no_signature);
    let raw = parsed.publish_text@ + spec_signature_suffix(config, PublishPlatformKind::Linkedin, ov);
    let urn = spec_env_var(env, "LINKEDIN_AUTHOR_URN"@)->Some_0;
    let fingerprint = spec_fingerprint("linkedin"@, urn, spec_fingerprint_source(raw, media_signature));
    if n > 20 {
        r matches Err(e) && is_linkedin_count_error(e, n)
    } else if spec_signature_fails(config, PublishPlatformKind::Linkedin, ov) {
        r matches Err(e) && spec_signature_result(Err(e), config, PublishPlatformKind::Linkedin, ov)
    } else if !spec_linkedin_auth_ok(env) {
        r matches Err(e) && crate::auth::spec_linkedin_auth(Err(e), env)
    } else if !spec_duplicate_result(Ok(()), log, "linkedin"@, urn, fingerprint, parsed.file_sha256@, allow_duplicate) {
        r matches Err(e) && spec_duplicate_result(
            Err(e),
            log,
            "linkedin"@,
            urn,
            fingerprint,
            parsed.file_sha256@,
            allow_duplicate,
        )
    } else {
        r matches Ok(p) && p.commentary_raw@ == raw && p.commentary@ == spec_escape_little_text(raw)
            && p.signature_applied == (spec_signature_suffix(config, PublishPlatformKind::Linkedin, ov).len() > 0)
            && crate::auth::spec_linkedin_auth(Ok(p.auth), env) && p.fingerprint@ == fingerprint
            && p.file_sha256@ == parsed.file_sha256@ && p.text_sha256@ == spec_text_sha256(raw)
    }
}

/// The checked LinkedIn post of `publish linkedin`; `log` is the publish log.
pub fn prepare_linkedin_publish(
    parsed: &ParsedPostInput,
    media_signature: &str,
    config: &RuntimeConfig,
    env: &EnvVars,
    add_signature: bool,
    no_signature: bool,
    allow_duplicate: bool,
    log: &Vec<Result<PublishLogEntry, String>>,
) -> (r: Result<LinkedinPlan, AppError>)
    ensures
        spec_linkedin_plan(
            r,
            *parsed,
            media_signature@,
            *config,
            *env,
            add_signature,
            no_signature,
            allow_duplicate,
            log@,
        ),
{
    match validate_linkedin_media_count(parsed.media_paths.len()) {
        Ok(()) => {},
        Err(e) => return Err(e),
    }
    let ov = signature_cli_override(add_signature, no_signature);
    let signature = match resolve_signature_text(config, PublishPlatformKind::Linkedin, ov) {
        Ok(s) => s,
        Err(e) => return Err(e),
    };
    let signature_applied = signature.is_some();
    let raw = match &signature {
        Some(s) => concat2(parsed.publish_text.as_str(), s.as_str()),
        None => {
            proof {
                assert(parsed.publish_text@ + Seq::<char>::empty() =~= parsed.publish_text@);
            }
            parsed.publish_text.clone()
        },
    };
    let commentary = escape_little_text_plain(raw.as_str());
    let auth = match load_linkedin_auth(env) {
        Ok(a) => a,
        Err(e) => return Err(e),
    };
    let source = combine_text_and_media_for_fingerprint(raw.as_str(), media_signature);
    let text_digest = text_sha256(raw.as_str());
    let fingerprint = compute_fingerprint("linkedin", auth.author_urn.as_str(), source.as_str());
    match maybe_block_duplicate(
        log,
        "linkedin",
        auth.author_urn.as_str(),
        fingerprint.as_str(),
        parsed.file_sha256.as_str(),
        allow_duplicate,
    ) {
        Ok(()) => {},
        Err(e) => return Err(e),
    }
    Ok(
        LinkedinPlan {
            commentary_raw: raw,
            commentary,
            signature_applied,
            auth,
            fingerprint,
            file_sha256: parsed.file_sha256.clone(),
            text_sha256: text_digest,
        },
    )
}

/// The debug report of `publish linkedin`: what would be sent.
pub open spec fn spec_linkedin_debug(plan: LinkedinPlan, media_paths: Seq<String>) -> Json {
    Json::Object(
        seq![
            ("ok"@, Json::Bool(true)),
            ("platform"@, Json::Str("linkedin"@)),
            ("mode"@, Json::Str("debug"@)),
            ("would_publish"@, Json::Bool(true)),
            ("signature_applied"@, Json::Bool(plan.signature_applied)),
            ("media_count"@, Json::UInt(media_paths.len() as u64)),
            ("media_paths"@, spec_paths_json(media_paths)),
            ("commentary_raw"@, Json::Str(plan.commentary_raw@)),
            ("commentary_escaped"@, Json::Str(plan.commentary@)),
            (
                "payload"@,
                spec_linkedin_payload(
                    plan.auth.author_urn@,
                    plan.commentary@,
                    spec_linkedin_preview_ids(media_paths.len()),
                ),
            ),
            ("fingerprint"@, Json::Str(plan.fingerprint@)),
            ("file_sha256"@, Json::Str(plan.file_sha256@)),
            ("text_sha256"@, Json::Str(plan.text_sha256@)),
        ],
    )
}

/// The debug report of `publish linkedin`.
pub fn linkedin_debug_output(plan: &LinkedinPlan, media_paths: &Vec<String>) -> (v: JsonValue)
    ensures
        v@ == spec_linkedin_debug(*plan, media_paths@),
{
    let ids = linkedin_preview_media_ids(media_paths.len());
    let payload = linkedin_payload(plan.auth.author_urn.as_str(), plan.commentary.as_str(), &ids);
    let mut m: Vec<(String, JsonValue)> = Vec::new();
    proof {
        assert(json_members(m) =~= Seq::<(Seq<char>, Json)>::empty());
    }
    push_member(&mut m, "ok", JsonValue::Bool(true));
    push_member(&mut m, "platform", JsonValue::string("linkedin"));
    push_member(&mut m, "mode", JsonValue::string("debug"));
    push_member(&mut m, "would_publish", JsonValue::Bool(true));
    push_member(&mut m, "signature_applied", JsonValue::Bool(plan.signature_applied));
    push_member(&mut m, "media_count", JsonValue::UInt(media_paths.len() as u64));
    push_member(&mut m, "media_paths", string_array(media_paths));
    push_member(&mut m, "commentary_raw", JsonValue::string(plan.commentary_raw.as_str()));
    push_member(&mut m, "commentary_escaped", JsonValue::string(plan.commentary.as_str()));
    push_member(&mut m, "payload", payload);
    push_member(&mut m, "fingerprint", JsonValue::string(plan.fingerprint.as_str()));
    push_member(&mut m, "file_sha256", JsonValue::string(plan.file_sha256.as_str()));
    push_member(&mut m, "text_sha256", JsonValue::string(plan.text_sha256.as_str()));
    proof {
        assert(json_members(m) =~= spec_linkedin_debug(*plan, media_paths@)->Object_0);
    }
    let v = JsonValue::Object(m);
    proof {
        assert(v@ == spec_linkedin_debug(*plan, media_paths@));
    }
    v
}

/// An X post that passed its checks, ready to be sent.
#[derive(Debug)]
pub struct XPlan {
    pub text: String,
    pub signature_applied: bool,
    pub auth: XAuth,
    pub author_key: String,
    pub fingerprint: String,
    pub file_sha256: String,
    pub text_sha256: String,
    pub bypass_duplicate: bool,
    pub weighted_length: usize,
    pub cashtag_count: usize,
}

/// The flags of `publish x` that bypass a local check.
#[derive(Debug)]
pub struct XBypass {
    pub force: bool,
    pub allow_duplicate: bool,
    pub allow_cashtag: bool,
    pub allow_length: bool,
}

/// The checks of `publish x`, in order: the image count, the signature, the
/// media scope, X's text rules (unless bypassed), the credentials, then the
/// duplicate guard (unless bypassed). `--force` bypasses all three local checks.
pub open spec fn spec_x_plan(
    r: Result<XPlan, AppError>,
    parsed: ParsedPostInput,
    media_signature: Seq<char>,
    config: RuntimeConfig,
    env: EnvVars,
    add_signature: bool,
    no_signature: bool,
    bypass: XBypass,
    log: Seq<Result<PublishLogEntry, String>>,
) -> bool {
    let n = parsed.media_paths@.len();
    let ov = spec_signature_cli_override(add_signature, no_signature);
    let text = parsed.publish_text@ + spec_signature_suffix(config, PublishPlatformKind::X, ov);
    let skip_dup = bypass.force || bypass.allow_duplicate;
    let skip_tag = bypass.force || bypass.allow_cashtag;
    let skip_len = bypass.force || bypass.allow_length;
    let key = spec_x_author_key(env);
    let fingerprint = spec_fingerprint("x"@, key, spec_fingerprint_source(text, media_signature));
    if n > 4 {
        r matches Err(e) && is_x_count_error(e, n)
    } else if spec_signature_fails(config, PublishPlatformKind::X, ov) {
        r matches Err(e) && spec_signature_result(Err(e), config, PublishPlatformKind::X, ov)
    } else if n > 0 && !spec_x_scope_contains(env, "media.write"@) {
        r matches Err(e) && is_missing_auth(
            e,
            "X media upload requires media.write scope, but current token scope does not include it."@,
            Some("Set X_SCOPES to include media.write, run `publo auth x login`, then retry publish."@),
            Some("publo auth x login"@),
        )
    } else if !spec_x_post_text_result(Ok(()), text, skip_tag, skip_len) {
        r matches Err(e) && spec_x_post_text_result(Err(e), text, skip_tag, skip_len)
    } else if !spec_x_auth_ok(env) {
        r matches Err(e) && crate::auth::spec_x_auth(Err(e), env)
    } else if !spec_duplicate_result(Ok(()), log, "x"@, key, fingerprint, parsed.file_sha256@, skip_dup) {
        r matches Err(e) && spec_duplicate_result(Err(e), log, "x"@, key, fingerprint, parsed.file_sha256@, skip_dup)
    } else {
        r matches Ok(p) && p.text@ == text && p.signature_applied == (spec_signature_suffix(
            config,
            PublishPlatformKind::X,
            ov,
        ).len() > 0) && crate::auth::spec_x_auth(Ok(p.auth), env) && p.author_key@ == key
            && p.fingerprint@ == fingerprint && p.file_sha256@ == parsed.file_sha256@ && p.text_sha256@
            == spec_text_sha256(text) && p.bypass_duplicate == skip_dup && p.weighted_length
            == spec_x_weighted_length(text) && p.cashtag_count == spec_cashtags(text).len()
    }
}

/// The checked X post of `publish x`; `log` is the publish log.
pub fn prepare_x_publish(
    parsed: &ParsedPostInput,
    media_signature: &str,
    config: &RuntimeConfig,
    env: &EnvVars,
    add_signature: bool,
    no_signature: bool,
    bypass: &XBypass,
    log: &Vec<Result<PublishLogEntry, String>>,
) -> (r: Result<XPlan, AppError>)
    requires
        parsed.publish_text@.len() + match crate::guard::spec_signature_text(*config, PublishPlatformKind::X) {
            Some(t) => t.len(),
            None => 0,
        } <= usize::MAX / 23,
    ensures
        spec_x_plan(
            r,
            *parsed,
            media_signature@,
            *config,
            *env,
            add_signature,
            no_signature,
            *bypass,
            log@,
        ),
{
    let n = parsed.media_paths.len();
    match validate_x_media_count(n) {
        Ok(()) => {},
        Err(e) => return Err(e),
    }
    let ov = signature_cli_override(add_signature, no_signature);
    let signature = match resolve_signature_text(config, PublishPlatformKind::X, ov) {
        Ok(s) => s,
        Err(e) => return Err(e),
    };
    let signature_applied = signature.is_some();
    let text = match &signature {
        Some(s) => concat2(parsed.publish_text.as_str(), s.as_str()),
        None => {
            proof {
                assert(parsed.publish_text@ + Seq::<char>::empty() =~= parsed.publish_text@);
            }
            parsed.publish_text.clone()
        },
    };
    if n > 0 && !x_scope_contains(env, "media.write") {
        return Err(
            missing_auth(
                "X media upload requires media.write scope, but current token scope does not include it.".to_owned(),
                Some("Set X_SCOPES to include media.write, run `publo auth x login`, then retry publish."),
                Some("publo auth x login"),
            ),
        );
    }
    let skip_dup = bypass.force || bypass.allow_duplicate;
    let skip_tag = bypass.force || bypass.allow_cashtag;
    let skip_len = bypass.force || bypass.allow_length;
    let cashtags = extract_cashtags(text.as_str());
    proof {
        assert(spec_string_views(cashtags@).len() == cashtags@.len());
    }
    let cashtag_count = cashtags.len();
    let weighted_length = x_weighted_length(text.as_str());
    match validate_x_post_text(text.as_str(), skip_tag, skip_len) {
        Ok(()) => {},
        Err(e) => return Err(e),
    }
    let auth = match load_x_auth(env) {
        Ok(a) => a,
        Err(e) => return Err(e),
    };
    let key = x_author_key(env);
    let source = combine_text_and_media_for_fingerprint(text.as_str(), media_signature);
    let text_digest = text_sha256(text.as_str());
    let fingerprint = compute_fingerprint("x", key.as_str(), source.as_str());
    match maybe_block_duplicate(
        log,
        "x",
        key.as_str(),
        fingerprint.as_str(),
        parsed.file_sha256.as_str(),
        skip_dup,
    ) {
        Ok(()) => {},
        Err(e) => return Err(e),
    }
    Ok(
        XPlan {
            text,
            signature_applied,
            auth,
            author_key: key,
            fingerprint,
            file_sha256: parsed.file_sha256.clone(),
            text_sha256: text_digest,
            bypass_duplicate: skip_dup,
            weighted_length,
            cashtag_count,
        },
    )
}

/// The debug report of `publish x`: what would be sent, and the local checks.
pub open spec fn spec_x_debug(plan: XPlan, media_paths: Seq<String>) -> Json {
    Json::Object(
        seq![
            ("ok"@, Json::Bool(true)),
            ("platform"@, Json::Str("x"@)),
            ("mode"@, Json::Str("debug"@)),
            ("would_publish"@, Json::Bool(true)),
            ("signature_applied"@, Json::Bool(plan.signature_applied)),
            ("media_count"@, Json::UInt(media_paths.len() as u64)),
            ("media_paths"@, spec_paths_json(media_paths)),
            ("text"@, Json::Str(plan.text@)),
            ("payload"@, spec_x_payload(plan.text@, spec_numbered_placeholders("x"@, media_paths.len()))),
            ("fingerprint"@, Json::Str(plan.fingerprint@)),
            ("file_sha256"@, Json::Str(plan.file_sha256@)),
            ("text_sha256"@, Json::Str(plan.text_sha256@)),
            (
                "duplicate_guard"@,
                Json::Str(
                    if plan.bypass_duplicate {
                        "bypassed"@
                    } else {
                        "checked"@
                    },
                ),
            ),
            (
                "local_preflight"@,
                Json::Object(
                    seq![
                        ("weighted_length"@, Json::UInt(plan.weighted_length as u64)),
                        ("cashtag_count"@, Json::UInt(plan.cashtag_count as u64)),
                    ],
                ),
            ),
            ("auth_present"@, Json::Bool(spec_trim(plan.auth.access_token@).len() > 0)),
        ],
    )
}

/// The debug report of `publish x`.
pub fn x_debug_output(plan: &XPlan, media_paths: &Vec<String>) -> (v: JsonValue)
    ensures
        v@ == spec_x_debug(*plan, media_paths@),
{
    let ids = x_preview_media_ids(media_paths.len());
    let payload = x_payload(plan.text.as_str(), &ids);
    let mut local: Vec<(String, JsonValue)> = Vec::new();
    proof {
        assert(json_members(local) =~= Seq::<(Seq<char>, Json)>::empty());
    }
    push_member(&mut local, "weighted_length", JsonValue::UInt(plan.weighted_length as u64));
    push_member(&mut local, "cashtag_count", JsonValue::UInt(plan.cashtag_count as u64));
    let ghost local_view: Seq<(Seq<char>, Json)> = seq![
        ("weighted_length"@, Json::UInt(plan.weighted_length as u64)),
        ("cashtag_count"@, Json::UInt(plan.cashtag_count as u64)),
    ];
    proof {
        assert(json_members(local) =~= local_view);
    }
    let token = trim(plan.auth.access_token.as_str());
    let mut m: Vec<(String, JsonValue)> = Vec::new();
    proof {
        assert(json_members(m) =~= Seq::<(Seq<char>, Json)>::empty());
    }
    push_member(&mut m, "ok", JsonValue::Bool(true));
    push_member(&mut m, "platform", JsonValue::string("x"));
    push_member(&mut m, "mode", JsonValue::string("debug"));
    push_member(&mut m, "would_publish", JsonValue::Bool(true));
    push_member(&mut m, "signature_applied", JsonValue::Bool(plan.signature_applied));
    push_member(&mut m, "media_count", JsonValue::UInt(media_paths.len() as u64));
    push_member(&mut m, "media_paths", string_array(media_paths));
    push_member(&mut m, "text", JsonValue::string(plan.text.as_str()));
    push_member(&mut m, "payload", payload);
    push_member(&mut m, "fingerprint", JsonValue::string(plan.fingerprint.as_str()));
    push_member(&mut m, "file_sha256", JsonValue::string(plan.file_sha256.as_str()));
    push_member(&mut m, "text_sha256", JsonValue::string(plan.text_sha256.as_str()));
    let guard = if plan.bypass_duplicate {
        "bypassed"
    } else {
        "checked"
    };
    push_member(&mut m, "duplicate_guard", JsonValue::string(guard));
    push_member(&mut m, "local_preflight", JsonValue::Object(local));
    push_member(&mut m, "auth_present", JsonValue::Bool(token.as_str().unicode_len() > 0));
    proof {
        assert(json_members(m) =~= spec_x_debug(*plan, media_paths@)->Object_0);
    }
    let v = JsonValue::Object(m);
    proof {
        assert(v@ == spec_x_debug(*plan, media_paths@));
    }
    v
}

/// The success report of a publish: the platform, the post's id and URL, the
/// request id and when it was published.
pub open spec fn spec_success_output(
    platform: Seq<char>,
    post_id: Option<Seq<char>>,
    post_url: Option<Seq<char>>,
    request_id: Option<Seq<char>>,
    published_at: Seq<char>,
) -> Json {
    Json::Object(
        seq![
            ("ok"@, Json::Bool(true)),
            ("platform"@, Json::Str(platform)),
            ("post_id"@, crate::platforms::spec_opt_str_json(post_id)),
            ("post_url"@, crate::platforms::spec_opt_str_json(post_url)),
            ("request_id"@, crate::platforms::spec_opt_str_json(request_id)),
            ("published_at"@, Json::Str(published_at)),
        ],
    )
}

/// The success report of a publish.
pub fn success_output(
    platform: &str,
    post_id: &Option<String>,
    post_url: &Option<String>,
    request_id: &Option<String>,
    published_at: &str,
) -> (v: JsonValue)
    ensures
        v@ == spec_success_output(
            platform@,
            opt_seq(*post_id),
            opt_seq(*post_url),
            opt_seq(*request_id),
            published_at@,
        ),
{
    let mut m: Vec<(String, JsonValue)> = Vec::new();
    proof {
        assert(json_members(m) =~= Seq::<(Seq<char>, Json)>::empty());
    }
    push_member(&mut m, "ok", JsonValue::Bool(true));
    push_member(&mut m, "platform", JsonValue::string(platform));
    push_member(&mut m, "post_id", crate::errors::opt_string_json(post_id));
    push_member(&mut m, "post_url", crate::errors::opt_string_json(post_url));
    push_member(&mut m, "request_id", crate::errors::opt_string_json(request_id));
    push_member(&mut m, "published_at", JsonValue::string(published_at));
    proof {
        assert(json_members(m) =~= spec_success_output(
            platform@,
            opt_seq(*post_id),
            opt_seq(*post_url),
            opt_seq(*request_id),
            published_at@,
        )->Object_0);
    }
    let v = JsonValue::Object(m);
    proof {
        assert(v@ == spec_success_output(
            platform@,
            opt_seq(*post_id),
            opt_seq(*post_url),
            opt_seq(*request_id),
            published_at@,
        ));
    }
    v
}

} // verus!
