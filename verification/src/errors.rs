//! The error contract of every command: five error kinds, their process exit
//! codes, and the JSON error report with its provider-specific suggestion.
use vstd::prelude::*;

use crate::json::{
    insert_member, json_members, opt_json, push_member, spec_as_str, spec_as_u64, spec_get,
    spec_get_opt, Json, JsonValue,
};
use crate::text::{
    ascii_lowercase, concat3, contains, decimal, spec_ascii_lowercase, spec_contains, spec_decimal,
};
use crate::chars::str_eq;

verus! {

/// A failure of a command, by kind.
#[derive(Debug)]
pub enum AppError {
    Validation { message: String, suggestion: Option<String>, command: Option<String> },
    MissingAuth { message: String, suggestion: Option<String>, command: Option<String> },
    Io { message: String },
    Http { message: String, status: Option<u16>, api_error: Option<JsonValue>, retryable: bool },
    DuplicatePublish {
        message: String,
        existing_post_id: Option<String>,
        existing_post_url: Option<String>,
        file_sha256: String,
        fingerprint: String,
        existing_published_at: String,
    },
}

/// The view of an optional string.
pub open spec fn opt_seq(o: Option<String>) -> Option<Seq<char>> {
    match o {
        Some(s) => Some(s@),
        None => None,
    }
}

/// The view of an optional string slice.
pub open spec fn opt_str(o: Option<&str>) -> Option<Seq<char>> {
    match o {
        Some(s) => Some(s@),
        None => None,
    }
}

/// `e` is a validation error with exactly these texts.
pub open spec fn is_validation(
    e: AppError,
    message: Seq<char>,
    suggestion: Option<Seq<char>>,
    command: Option<Seq<char>>,
) -> bool {
    e matches AppError::Validation { message: m, suggestion: s, command: c } && m@ == message
        && opt_seq(s) == suggestion && opt_seq(c) == command
}

/// `e` is a missing-auth error with exactly these texts.
pub open spec fn is_missing_auth(
    e: AppError,
    message: Seq<char>,
    suggestion: Option<Seq<char>>,
    command: Option<Seq<char>>,
) -> bool {
    e matches AppError::MissingAuth { message: m, suggestion: s, command: c } && m@ == message
        && opt_seq(s) == suggestion && opt_seq(c) == command
}

/// `e` is a local I/O error with this message.
pub open spec fn is_io(e: AppError, message: Seq<char>) -> bool {
    e matches AppError::Io { message: m } && m@ == message
}

/// The message every error kind carries.
pub open spec fn spec_message(e: AppError) -> Seq<char> {
    match e {
        AppError::Validation { message, .. } => message@,
        AppError::MissingAuth { message, .. } => message@,
        AppError::Io { message } => message@,
        AppError::Http { message, .. } => message@,
        AppError::DuplicatePublish { message, .. } => message@,
    }
}

/// Copies an optional string.
pub fn copy_opt(o: &Option<String>) -> (r: Option<String>)
    ensures
        opt_seq(r) == opt_seq(*o),
{
    match o {
        Some(s) => Some(s.clone()),
        None => None,
    }
}

/// Owns an optional string slice.
pub fn own_opt(o: Option<&str>) -> (r: Option<String>)
    ensures
        opt_seq(r) == opt_str(o),
{
    match o {
        Some(s) => Some(s.to_owned()),
        None => None,
    }
}

/// A validation error.
pub fn validation(message: String, suggestion: Option<&str>, command: Option<&str>) -> (e: AppError)
    ensures
        is_validation(e, message@, opt_str(suggestion), opt_str(command)),
{
    AppError::Validation { message, suggestion: own_opt(suggestion), command: own_opt(command) }
}

/// A missing-auth error.
pub fn missing_auth(message: String, suggestion: Option<&str>, command: Option<&str>) -> (e: AppError)
    ensures
        is_missing_auth(e, message@, opt_str(suggestion), opt_str(command)),
{
    AppError::MissingAuth { message, suggestion: own_opt(suggestion), command: own_opt(command) }
}

/// The process exit code of each error kind.
pub open spec fn spec_exit_code(e: AppError) -> u8 {
    match e {
        AppError::Validation { .. } => 2,
        AppError::MissingAuth { .. } => 3,
        AppError::Io { .. } => 4,
        AppError::Http { .. } => 5,
        AppError::DuplicatePublish { .. } => 6,
    }
}

/// The `error_type` each error kind reports.
pub open spec fn spec_error_type(e: AppError) -> Seq<char> {
    match e {
        AppError::Validation { .. } => "validation_error"@,
        AppError::MissingAuth { .. } => "missing_auth"@,
        AppError::Io { .. } => "io_error"@,
        AppError::Http { .. } => "http_error"@,
        AppError::DuplicatePublish { .. } => "duplicate_publish"@,
    }
}

/// The JSON error report of a failed command.
#[derive(Debug)]
pub struct ErrorOutput {
    pub ok: bool,
    pub error_type: String,
    pub message: String,
    pub http_status: Option<u16>,
    pub api_error: Option<JsonValue>,
    pub retryable: bool,
    pub suggestion: Option<String>,
    pub command: Option<String>,
}

/// The suggestion an HTTP error report carries, from its status and provider error.
pub open spec fn spec_http_error_suggestion(status: Option<u16>, api_error: Option<Json>) -> Seq<char> {
    let hint = spec_as_str(spec_get_opt(api_error, "local_hint"@));
    let typ = match spec_as_str(spec_get_opt(api_error, "type"@)) {
        Some(t) => t,
        None => Seq::empty(),
    };
    let detail = spec_ascii_lowercase(
        match spec_as_str(spec_get_opt(api_error, "detail"@)) {
            Some(t) => t,
            None => Seq::empty(),
        },
    );
    let count_or_zero = |key: Seq<char>|
        match spec_as_u64(spec_get_opt(api_error, key)) {
            Some(n) => n as nat,
            None => 0,
        };
    if api_error is Some && hint == Some("x_likely_over_length"@) {
        "X API returned generic forbidden, but local check indicates over length (weighted "@
            + spec_decimal(count_or_zero("local_weighted_length"@))
            + " > 280). Shorten text and retry."@
    } else if api_error is Some && hint == Some("x_likely_cashtag_limit"@) {
        "X API returned generic forbidden, but local check indicates cashtag limit ("@
            + spec_decimal(count_or_zero("local_cashtag_count"@))
            + " found; API self-serve allows max 1). Reduce cashtags and retry."@
    } else if status == Some(402u16) && api_error is Some && (spec_contains(typ, "credits-depleted"@)
        || spec_contains(detail, "credits depleted"@)) {
        "X API credits are depleted for this app/project. Enable billing or upgrade access in X Developer Portal, then retry publish."@
    } else if status == Some(403u16) {
        if api_error is Some && (spec_contains(detail, "maximum of one cashtag"@) || spec_contains(
            detail,
            "remove additional cashtags"@,
        )) {
            "X API rejected the post due to cashtag limit (max 1 cashtag in API self-serve mode). Reduce cashtags to one and retry."@
        } else if api_error is Some && (spec_contains(detail, "too long"@) || spec_contains(
            detail,
            "over 280"@,
        ) || spec_contains(detail, "280"@)) {
            "X API rejected post length. Shorten text to fit API weighted 280-character rules, then retry."@
        } else if api_error is Some && spec_contains(typ, "not-authorized-for-resource"@) {
            "Request is not authorized for this API resource. Verify app/project access level and OAuth scopes for this endpoint."@
        } else {
            "Request is forbidden by provider policy/settings. Verify app permissions, user scopes, and product access for this endpoint."@
        }
    } else {
        "Inspect api_error for provider details and retry when resolved."@
    }
}

/// The string member `key` of an optional object, or the empty string.
fn str_member_or_empty(api_error: &Option<JsonValue>, key: &str) -> (r: String)
    ensures
        r@ == match spec_as_str(spec_get_opt(opt_json(*api_error), key@)) {
            Some(t) => t,
            None => Seq::empty(),
        },
{
    match api_error {
        Some(v) => match v.get(key) {
            Some(x) => match x.as_str() {
                Some(t) => t.to_owned(),
                None => String::new(),
            },
            None => String::new(),
        },
        None => String::new(),
    }
}

/// The unsigned member `key` of an optional object, or zero.
fn u64_member_or_zero(api_error: &Option<JsonValue>, key: &str) -> (r: u64)
    ensures
        r == match spec_as_u64(spec_get_opt(opt_json(*api_error), key@)) {
            Some(n) => n,
            None => 0,
        },
{
    match api_error {
        Some(v) => match v.get(key) {
            Some(x) => match x.as_u64() {
                Some(n) => n,
                None => 0,
            },
            None => 0,
        },
        None => 0,
    }
}

/// Whether the optional object has a string member `key` equal to `expected`.
fn str_member_is(api_error: &Option<JsonValue>, key: &str, expected: &str) -> (r: bool)
    ensures
        r == (spec_as_str(spec_get_opt(opt_json(*api_error), key@)) == Some(expected@)),
{
    match api_error {
        Some(v) => match v.get(key) {
            Some(x) => match x.as_str() {
                Some(t) => str_eq(t, expected),
                None => false,
            },
            None => false,
        },
        None => false,
    }
}

/// The suggestion an HTTP error report carries, from its status and provider error.
pub fn http_error_suggestion(status: Option<u16>, api_error: &Option<JsonValue>) -> (r: String)
    ensures
        r@ == spec_http_error_suggestion(status, opt_json(*api_error)),
{
    let has = api_error.is_some();
    if has && str_member_is(api_error, "local_hint", "x_likely_over_length") {
        let weighted = decimal(u64_member_or_zero(api_error, "local_weighted_length"));
        return concat3(
            "X API returned generic forbidden, but local check indicates over length (weighted ",
            weighted.as_str(),
            " > 280). Shorten text and retry.",
        );
    }
    if has && str_member_is(api_error, "local_hint", "x_likely_cashtag_limit") {
        let count = decimal(u64_member_or_zero(api_error, "local_cashtag_count"));
        return concat3(
            "X API returned generic forbidden, but local check indicates cashtag limit (",
            count.as_str(),
            " found; API self-serve allows max 1). Reduce cashtags and retry.",
        );
    }
    let typ = str_member_or_empty(api_error, "type");
    let detail_raw = str_member_or_empty(api_error, "detail");
    let detail = ascii_lowercase(detail_raw.as_str());
    if status == Some(402u16) && has && (contains(typ.as_str(), "credits-depleted") || contains(
        detail.as_str(),
        "credits depleted",
    )) {
        return "X API credits are depleted for this app/project. Enable billing or upgrade access in X Developer Portal, then retry publish.".to_owned();
    }
    if status == Some(403u16) {
        if has && (contains(detail.as_str(), "maximum of one cashtag") || contains(
            detail.as_str(),
            "remove additional cashtags",
        )) {
            return "X API rejected the post due to cashtag limit (max 1 cashtag in API self-serve mode). Reduce cashtags to one and retry.".to_owned();
        }
        if has && (contains(detail.as_str(), "too long") || contains(detail.as_str(), "over 280")
            || contains(detail.as_str(), "280")) {
            return "X API rejected post length. Shorten text to fit API weighted 280-character rules, then retry.".to_owned();
        }
        if has && contains(typ.as_str(), "not-authorized-for-resource") {
            return "Request is not authorized for this API resource. Verify app/project access level and OAuth scopes for this endpoint.".to_owned();
        }
        return "Request is forbidden by provider policy/settings. Verify app permissions, user scopes, and product access for this endpoint.".to_owned();
    }
    "Inspect api_error for provider details and retry when resolved.".to_owned()
}

/// An optional string as JSON (`null` when absent).
pub fn opt_string_json(o: &Option<String>) -> (v: JsonValue)
    ensures
        v@ == match opt_seq(*o) {
            Some(s) => Json::Str(s),
            None => Json::Null,
        },
{
    match o {
        Some(s) => JsonValue::string(s.as_str()),
        None => JsonValue::Null,
    }
}

impl AppError {
    /// The process exit code: 2 validation, 3 missing auth/config, 4 local IO,
    /// 5 HTTP/API, 6 duplicate publish blocked.
    pub fn exit_code(&self) -> (c: u8)
        ensures
            c == spec_exit_code(*self),
    {
        match self {
            AppError::Validation { .. } => 2,
            AppError::MissingAuth { .. } => 3,
            AppError::Io { .. } => 4,
            AppError::Http { .. } => 5,
            AppError::DuplicatePublish { .. } => 6,
        }
    }

    /// The JSON error report of this error.
    pub fn to_output(&self) -> (o: ErrorOutput)
        ensures
            !o.ok,
            o.error_type@ == spec_error_type(*self),
            o.message@ == spec_message(*self),
            match *self {
                AppError::Validation { suggestion, command, .. } | AppError::MissingAuth {
                    suggestion,
                    command,
                    ..
                } => o.http_status is None && o.api_error is None && !o.retryable && opt_seq(
                    o.suggestion,
                ) == opt_seq(suggestion) && opt_seq(o.command) == opt_seq(command),
                AppError::Io { .. } => o.http_status is None && o.api_error is None && !o.retryable
                    && o.suggestion is None && o.command is None,
                AppError::Http { status, api_error, retryable, .. } => o.http_status == status
                    && opt_json(o.api_error) == opt_json(api_error) && o.retryable == retryable
                    && opt_seq(o.suggestion) == Some(
                    spec_http_error_suggestion(status, opt_json(api_error)),
                ) && o.command is None,
                AppError::DuplicatePublish {
                    existing_post_id,
                    existing_post_url,
                    file_sha256,
                    fingerprint,
                    existing_published_at,
                    ..
                } => o.http_status is None && !o.retryable && o.command is None && opt_seq(
                    o.suggestion,
                ) == Some("Use --allow-duplicate to bypass duplicate guard intentionally."@)
                    && opt_json(o.api_error) == Some(
                    Json::Object(
                        seq![
                            ("existing_post_id"@, match opt_seq(existing_post_id) {
                                Some(s) => Json::Str(s),
                                None => Json::Null,
                            }),
                            ("existing_post_url"@, match opt_seq(existing_post_url) {
                                Some(s) => Json::Str(s),
                                None => Json::Null,
                            }),
                            ("file_sha256"@, Json::Str(file_sha256@)),
                            ("fingerprint"@, Json::Str(fingerprint@)),
                            ("existing_published_at"@, Json::Str(existing_published_at@)),
                        ],
                    ),
                ),
            },
    {
        match self {
            AppError::Validation { message, suggestion, command } => ErrorOutput {
                ok: false,
                error_type: "validation_error".to_owned(),
                message: message.clone(),
                http_status: None,
                api_error: None,
                retryable: false,
                suggestion: copy_opt(suggestion),
                command: copy_opt(command),
            },
            AppError::MissingAuth { message, suggestion, command } => ErrorOutput {
                ok: false,
                error_type: "missing_auth".to_owned(),
                message: message.clone(),
                http_status: None,
                api_error: None,
                retryable: false,
                suggestion: copy_opt(suggestion),
                command: copy_opt(command),
            },
            AppError::Io { message } => ErrorOutput {
                ok: false,
                error_type: "io_error".to_owned(),
                message: message.clone(),
                http_status: None,
                api_error: None,
                retryable: false,
                suggestion: None,
                command: None,
            },
            AppError::Http { message, status, api_error, retryable } => {
                let copied = match api_error {
                    Some(v) => Some(v.copy()),
                    None => None,
                };
                ErrorOutput {
                    ok: false,
                    error_type: "http_error".to_owned(),
                    message: message.clone(),
                    http_status: *status,
                    api_error: copied,
                    retryable: *retryable,
                    suggestion: Some(http_error_suggestion(*status, api_error)),
                    command: None,
                }
            },
            AppError::DuplicatePublish {
                message,
                existing_post_id,
                existing_post_url,
                file_sha256,
                fingerprint,
                existing_published_at,
            } => {
                let mut members: Vec<(String, JsonValue)> = Vec::new();
                push_member(&mut members, "existing_post_id", opt_string_json(existing_post_id));
                push_member(&mut members, "existing_post_url", opt_string_json(existing_post_url));
                push_member(&mut members, "file_sha256", JsonValue::string(file_sha256.as_str()));
                push_member(&mut members, "fingerprint", JsonValue::string(fingerprint.as_str()));
                push_member(
                    &mut members,
                    "existing_published_at",
                    JsonValue::string(existing_published_at.as_str()),
                );
                let ghost ms = json_members(members);
                let report = JsonValue::Object(members);
                proof {
                    assert(report@->Object_0 =~= ms);
                    assert(ms =~= seq![
                        ("existing_post_id"@, match opt_seq(*existing_post_id) {
                            Some(s) => Json::Str(s),
                            None => Json::Null,
                        }),
                        ("existing_post_url"@, match opt_seq(*existing_post_url) {
                            Some(s) => Json::Str(s),
                            None => Json::Null,
                        }),
                        ("file_sha256"@, Json::Str(file_sha256@)),
                        ("fingerprint"@, Json::Str(fingerprint@)),
                        ("existing_published_at"@, Json::Str(existing_published_at@)),
                    ]);
                    assert(report@ == Json::Object(ms));
                }
                ErrorOutput {
                    ok: false,
                    error_type: "duplicate_publish".to_owned(),
                    message: message.clone(),
                    http_status: None,
                    api_error: Some(report),
                    retryable: false,
                    suggestion: Some(
                        "Use --allow-duplicate to bypass duplicate guard intentionally.".to_owned(),
                    ),
                    command: None,
                }
            },
        }
    }
}

} // verus!
