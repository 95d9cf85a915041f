//! Provider requests around a publish and a login: how a request that failed
//! is reported, the image uploads of LinkedIn and X, token refreshes, and the
//! auth guide and token status reports.
use vstd::prelude::*;

use crate::auth::{spec_env_non_empty, spec_env_var, EnvVars};
use crate::errors::{is_missing_auth, missing_auth, opt_seq, AppError};
use crate::json::{json_members, push_member, Json, JsonValue};
use crate::platforms::{media_content_type, spec_media_content_type, spec_opt_str_json, spec_retryable_status};
use crate::text::{concat2, concat3, decimal, spec_decimal};

verus! {

/// The error of a provider answer with a failed status: `WHAT returned
/// STATUS`, retryable on a server error or 429.
pub open spec fn is_request_status_error(e: AppError, what: Seq<char>, status: u16, api_error: Option<Json>) -> bool {
    &&& e is Http
    &&& e->Http_message@ == what + " returned "@ + spec_decimal(status as nat)
    &&& e->Http_status == Some(status)
    &&& crate::json::opt_json(e->Http_api_error) == api_error
    &&& e->Http_retryable == spec_retryable_status(status)
}

/// The error of a provider answer with a failed status.
pub fn request_status_error(what: &str, status: u16, api_error: Option<JsonValue>) -> (e: AppError)
    ensures
        is_request_status_error(e, what@, status, crate::json::opt_json(api_error)),
{
    let ghost a = crate::json::opt_json(api_error);
    let code = decimal(status as u64);
    let message = concat3(what, " returned ", code.as_str());
    let e = AppError::Http {
        message,
        status: Some(status),
        api_error,
        retryable: (500 <= status && status <= 599) || status == 429,
    };
    proof {
        assert(crate::json::opt_json(e->Http_api_error) == a);
    }
    e
}

/// The error of a request that got no answer: `WHAT request failed: CAUSE`,
/// retryable on a timeout or a failed connection.
pub fn request_send_error(what: &str, cause: &str, timeout_or_connect: bool) -> (e: AppError)
    ensures
        e is Http,
        e->Http_message@ == what@ + " request failed: "@ + cause@,
        e->Http_status is None,
        e->Http_api_error is None,
        e->Http_retryable == timeout_or_connect,
{
    let message = concat3(what, " request failed: ", cause);
    AppError::Http { message, status: None, api_error: None, retryable: timeout_or_connect }
}

/// The error of a successful answer that could not be read: `Failed to
/// parse WHAT: CAUSE`, on status 200, not retried.
pub fn response_parse_error(what: &str, cause: &str) -> (e: AppError)
    ensures
        e is Http,
        e->Http_message@ == "Failed to parse "@ + what@ + ": "@ + cause@,
        e->Http_status == Some(200u16),
        e->Http_api_error is None,
        !e->Http_retryable,
{
    let head = concat3("Failed to parse ", what, ": ");
    let message = concat2(head.as_str(), cause);
    AppError::Http { message, status: Some(200), api_error: None, retryable: false }
}

/// The body of LinkedIn's image upload initialization.
pub fn linkedin_image_init_body(owner_urn: &str) -> (v: JsonValue)
    ensures
        v@ == Json::Object(
            seq![("initializeUploadRequest"@, Json::Object(seq![("owner"@, Json::Str(owner_urn@))]))],
        ),
{
    let mut inner: Vec<(String, JsonValue)> = Vec::new();
    proof {
        assert(json_members(inner) =~= Seq::<(Seq<char>, Json)>::empty());
    }
    push_member(&mut inner, "owner", JsonValue::string(owner_urn));
    let ghost iv: Seq<(Seq<char>, Json)> = seq![("owner"@, Json::Str(owner_urn@))];
    proof {
        assert(json_members(inner) =~= iv);
    }
    let mut m: Vec<(String, JsonValue)> = Vec::new();
    proof {
        assert(json_members(m) =~= Seq::<(Seq<char>, Json)>::empty());
    }
    push_member(&mut m, "initializeUploadRequest", JsonValue::Object(inner));
    proof {
        assert(json_members(m) =~= seq![("initializeUploadRequest"@, Json::Object(iv))]);
    }
    JsonValue::Object(m)
}

/// The body of an X image upload: the image in standard Base64, as a tweet
/// image of its content type.
pub open spec fn spec_x_media_body(path: Seq<char>, bytes: Seq<u8>) -> Option<Json> {
    match spec_media_content_type(path) {
        Some(t) => Some(
            Json::Object(
                seq![
                    ("media"@, Json::Str(crate::substack::spec_base64_standard(bytes))),
                    ("media_category"@, Json::Str("tweet_image"@)),
                    ("media_type"@, Json::Str(t)),
                ],
            ),
        ),
        None => None,
    }
}

/// The body of an X image upload of the file at `path` with content `bytes`.
pub fn x_media_upload_body(path: &str, bytes: &Vec<u8>) -> (r: Result<JsonValue, AppError>)
    ensures
        match spec_x_media_body(path@, bytes@) {
            Some(j) => r matches Ok(v) && v@ == j,
            None => r matches Err(e) && crate::errors::is_validation(
                e,
                "Unsupported media extension for '"@ + path@ + "'. Allowed: .png, .jpg, .jpeg"@,
                Some("Use PNG or JPEG image files."@),
                None,
            ),
        },
{
    let encoded = crate::substack::base64_standard(bytes.as_slice());
    let media_type = match media_content_type(path) {
        Ok(t) => t,
        Err(e) => return Err(e),
    };
    let mut m: Vec<(String, JsonValue)> = Vec::new();
    proof {
        assert(json_members(m) =~= Seq::<(Seq<char>, Json)>::empty());
    }
    push_member(&mut m, "media", JsonValue::string(encoded.as_str()));
    push_member(&mut m, "media_category", JsonValue::string("tweet_image"));
    push_member(&mut m, "media_type", JsonValue::string(media_type.as_str()));
    proof {
        assert(json_members(m) =~= spec_x_media_body(path@, bytes@)->Some_0->Object_0);
    }
    Ok(JsonValue::Object(m))
}

/// What an X upload answer with `status` means for the publish.
#[derive(Debug)]
pub enum XUploadStatus {
    /// The token was refused: refresh it and start the uploads again.
    Unauthorized,
    /// The upload went through; its answer is read next.
    Accepted,
}

/// What an X upload answer means: 401 asks for a refresh; 403 is a missing
/// scope or access; another failure is an HTTP error.
pub fn x_upload_status(status: u16, api_error: Option<JsonValue>) -> (r: Result<XUploadStatus, AppError>)
    ensures
        status == 401 ==> r matches Ok(XUploadStatus::Unauthorized),
        status == 403 ==> (r matches Err(e) && is_missing_auth(
            e,
            "X media upload forbidden. Token may be missing media.write scope or app access for media upload."@,
            Some(
                "Ensure X_SCOPES includes media.write, re-run publo auth x login, and verify app/project access."@,
            ),
            Some("publo auth x login"@),
        )),
        status != 401 && status != 403 && !(200 <= status <= 299) ==> (r matches Err(e)
            && is_request_status_error(e, "X media upload"@, status, crate::json::opt_json(api_error))),
        status != 401 && status != 403 && (200 <= status <= 299) ==> r matches Ok(XUploadStatus::Accepted),
{
    if status == 401 {
        return Ok(XUploadStatus::Unauthorized);
    }
    if status == 403 {
        return Err(
            missing_auth(
                "X media upload forbidden. Token may be missing media.write scope or app access for media upload.".to_owned(),
                Some(
                    "Ensure X_SCOPES includes media.write, re-run publo auth x login, and verify app/project access.",
                ),
                Some("publo auth x login"),
            ),
        );
    }
    if !(200 <= status && status <= 299) {
        return Err(request_status_error("X media upload", status, api_error));
    }
    Ok(XUploadStatus::Accepted)
}

/// The media id of an accepted X upload: reported errors fail it, and an id
/// must be there. `errors` and `media_id` are what the answer holds.
pub fn x_upload_media_id(errors: Option<Vec<JsonValue>>, media_id: Option<String>) -> (r: Result<String, AppError>)
    ensures
        (errors matches Some(v) && v@.len() > 0) ==> (r matches Err(e) && e is Http && e->Http_message@
            == "X media upload returned errors."@ && e->Http_status == Some(200u16) && crate::json::opt_json(
            e->Http_api_error,
        ) == Some(
            Json::Object(seq![("errors"@, crate::json::json_view(JsonValue::Array(errors->Some_0)))]),
        ) && !e->Http_retryable),
        !(errors matches Some(v) && v@.len() > 0) ==> match opt_seq(media_id) {
            Some(id) => r matches Ok(s) && s@ == id,
            None => r matches Err(e) && e is Http && e->Http_message@
                == "X media upload response missing media id."@ && e->Http_status == Some(200u16)
                && e->Http_api_error is None && !e->Http_retryable,
        },
{
    match errors {
        Some(v) => {
            if v.len() > 0 {
                let ghost ev = crate::json::json_view(JsonValue::Array(v));
                let mut m: Vec<(String, JsonValue)> = Vec::new();
                proof {
                    assert(json_members(m) =~= Seq::<(Seq<char>, Json)>::empty());
                }
                push_member(&mut m, "errors", JsonValue::Array(v));
                proof {
                    assert(json_members(m) =~= seq![("errors"@, ev)]);
                }
                let api_error = Some(JsonValue::Object(m));
                proof {
                    assert(crate::json::opt_json(api_error) == Some(Json::Object(seq![("errors"@, ev)])));
                }
                let e = AppError::Http {
                    message: "X media upload returned errors.".to_owned(),
                    status: Some(200),
                    api_error,
                    retryable: false,
                };
                proof {
                    assert(crate::json::opt_json(e->Http_api_error) == Some(Json::Object(seq![("errors"@, ev)])));
                }
                return Err(e);
            }
        },
        None => {},
    }
    match media_id {
        Some(id) => Ok(id),
        None => Err(
            AppError::Http {
                message: "X media upload response missing media id.".to_owned(),
                status: Some(200),
                api_error: None,
                retryable: false,
            },
        ),
    }
}

/// The credentials of a LinkedIn token refresh: the app's id and secret.
pub fn linkedin_refresh_credentials(env: &EnvVars) -> (r: Result<(String, String), AppError>)
    ensures
        match spec_env_var(*env, "LINKEDIN_CLIENT_ID"@) {
            None => r matches Err(e) && is_missing_auth(
                e,
                "LINKEDIN_CLIENT_ID is missing."@,
                Some("Set LINKEDIN_CLIENT_ID in .env from your LinkedIn app settings."@),
                Some("publo auth linkedin guide"@),
            ),
            Some(id) => match spec_env_var(*env, "LINKEDIN_CLIENT_SECRET"@) {
                None => r matches Err(e) && is_missing_auth(
                    e,
                    "LINKEDIN_CLIENT_SECRET is missing."@,
                    Some("Set LINKEDIN_CLIENT_SECRET in .env from your LinkedIn app settings."@),
                    Some("publo auth linkedin guide"@),
                ),
                Some(secret) => r matches Ok((a, b)) && a@ == id && b@ == secret,
            },
        },
{
    let id = match env.var("LINKEDIN_CLIENT_ID") {
        Some(v) => v,
        None => {
            return Err(
                missing_auth(
                    "LINKEDIN_CLIENT_ID is missing.".to_owned(),
                    Some("Set LINKEDIN_CLIENT_ID in .env from your LinkedIn app settings."),
                    Some("publo auth linkedin guide"),
                ),
            );
        },
    };
    match env.var("LINKEDIN_CLIENT_SECRET") {
        Some(secret) => Ok((id, secret)),
        None => Err(
            missing_auth(
                "LINKEDIN_CLIENT_SECRET is missing.".to_owned(),
                Some("Set LINKEDIN_CLIENT_SECRET in .env from your LinkedIn app settings."),
                Some("publo auth linkedin guide"),
            ),
        ),
    }
}

/// The credentials of `auth x token-refresh`: the refresh token, the client
/// id and the optional client secret.
pub fn x_refresh_credentials(env: &EnvVars) -> (r: Result<(String, String, Option<String>), AppError>)
    ensures
        match spec_env_non_empty(*env, "X_REFRESH_TOKEN"@) {
            None => r matches Err(e) && is_missing_auth(
                e,
                "No X refresh token found."@,
                Some("Run publo auth x login with offline.access scope, then retry token-refresh."@),
                Some("publo auth x token-status"@),
            ),
            Some(rt) => match spec_env_non_empty(*env, "X_CLIENT_ID"@) {
                None => r matches Err(e) && is_missing_auth(
                    e,
                    "X_CLIENT_ID is missing."@,
                    Some("Set X_CLIENT_ID in .env from your X app OAuth 2.0 settings."@),
                    Some("publo auth x token-refresh"@),
                ),
                Some(id) => r matches Ok((a, b, c)) && a@ == rt && b@ == id && opt_seq(c)
                    == spec_env_non_empty(*env, "X_CLIENT_SECRET"@),
            },
        },
{
    let rt = match env.non_empty("X_REFRESH_TOKEN") {
        Some(v) => v,
        None => {
            return Err(
                missing_auth(
                    "No X refresh token found.".to_owned(),
                    Some("Run publo auth x login with offline.access scope, then retry token-refresh."),
                    Some("publo auth x token-status"),
                ),
            );
        },
    };
    let id = match env.non_empty("X_CLIENT_ID") {
        Some(v) => v,
        None => {
            return Err(
                missing_auth(
                    "X_CLIENT_ID is missing.".to_owned(),
                    Some("Set X_CLIENT_ID in .env from your X app OAuth 2.0 settings."),
                    Some("publo auth x token-refresh"),
                ),
            );
        },
    };
    Ok((rt, id, env.non_empty("X_CLIENT_SECRET")))
}

/// The refresh token of `auth linkedin token-refresh`.
pub fn linkedin_refresh_token(env: &EnvVars) -> (r: Result<String, AppError>)
    ensures
        match spec_env_non_empty(*env, "LINKEDIN_REFRESH_TOKEN"@) {
            None => r matches Err(e) && is_missing_auth(
                e,
                "No LinkedIn refresh token found."@,
                Some(
                    "Publish already attempts automatic refresh when access token fails. If publish fails, check token-status and retry token-refresh; if that still fails, run login and exchange."@,
                ),
                Some("publo auth linkedin token-status"@),
            ),
            Some(t) => r matches Ok(s) && s@ == t,
        },
{
    match env.non_empty("LINKEDIN_REFRESH_TOKEN") {
        Some(t) => Ok(t),
        None => Err(
            missing_auth(
                "No LinkedIn refresh token found.".to_owned(),
                Some(
                    "Publish already attempts automatic refresh when access token fails. If publish fails, check token-status and retry token-refresh; if that still fails, run login and exchange.",
                ),
                Some("publo auth linkedin token-status"),
            ),
        ),
    }
}

/// The next step the LinkedIn auth guide shows: complete the app settings,
/// then log in, then resolve the author URN; else it is ready.
#[derive(Debug)]
pub enum LinkedinGuideStep {
    AppSettings,
    Login,
    AuthorUrn,
    Ready,
}

/// The next step of the LinkedIn auth guide.
pub fn linkedin_guide_step(env: &EnvVars) -> (s: LinkedinGuideStep)
    ensures
        if spec_env_var(*env, "LINKEDIN_CLIENT_ID"@) is None || spec_env_var(*env, "LINKEDIN_CLIENT_SECRET"@)
            is None || spec_env_var(*env, "LINKEDIN_REDIRECT_URI"@) is None {
            s is AppSettings
        } else if spec_env_var(*env, "LINKEDIN_ACCESS_TOKEN"@) is None {
            s is Login
        } else if spec_env_var(*env, "LINKEDIN_AUTHOR_URN"@) is None {
            s is AuthorUrn
        } else {
            s is Ready
        },
{
    if env.var("LINKEDIN_CLIENT_ID").is_none() || env.var("LINKEDIN_CLIENT_SECRET").is_none()
        || env.var("LINKEDIN_REDIRECT_URI").is_none() {
        LinkedinGuideStep::AppSettings
    } else if env.var("LINKEDIN_ACCESS_TOKEN").is_none() {
        LinkedinGuideStep::Login
    } else if env.var("LINKEDIN_AUTHOR_URN").is_none() {
        LinkedinGuideStep::AuthorUrn
    } else {
        LinkedinGuideStep::Ready
    }
}

/// The X token status report.
pub fn x_token_status(env: &EnvVars) -> (v: JsonValue)
    ensures
        v@ == Json::Object(
            seq![
                ("ok"@, Json::Bool(true)),
                ("platform"@, Json::Str("x"@)),
                ("mode"@, Json::Str("auth_token_status"@)),
                ("access_token_present"@, Json::Bool(spec_env_non_empty(*env, "X_ACCESS_TOKEN"@) is Some)),
                ("refresh_token_present"@, Json::Bool(spec_env_non_empty(*env, "X_REFRESH_TOKEN"@) is Some)),
                ("access_token_expires_in"@, spec_opt_str_json(spec_env_non_empty(*env, "X_ACCESS_TOKEN_EXPIRES_IN"@))),
                (
                    "scopes"@,
                    spec_opt_str_json(
                        match spec_env_non_empty(*env, "X_SCOPES"@) {
                            Some(s) => Some(s),
                            None => spec_env_non_empty(*env, "X_SCOPE"@),
                        },
                    ),
                ),
                ("token_type"@, spec_opt_str_json(spec_env_non_empty(*env, "X_TOKEN_TYPE"@))),
            ],
        ),
{
    let scopes = match env.non_empty("X_SCOPES") {
        Some(s) => Some(s),
        None => env.non_empty("X_SCOPE"),
    };
    let mut m: Vec<(String, JsonValue)> = Vec::new();
    proof {
        assert(json_members(m) =~= Seq::<(Seq<char>, Json)>::empty());
    }
    push_member(&mut m, "ok", JsonValue::Bool(true));
    push_member(&mut m, "platform", JsonValue::string("x"));
    push_member(&mut m, "mode", JsonValue::string("auth_token_status"));
    push_member(&mut m, "access_token_present", JsonValue::Bool(env.non_empty("X_ACCESS_TOKEN").is_some()));
    push_member(&mut m, "refresh_token_present", JsonValue::Bool(env.non_empty("X_REFRESH_TOKEN").is_some()));
    push_member(
        &mut m,
        "access_token_expires_in",
        crate::errors::opt_string_json(&env.non_empty("X_ACCESS_TOKEN_EXPIRES_IN")),
    );
    push_member(&mut m, "scopes", crate::errors::opt_string_json(&scopes));
    push_member(&mut m, "token_type", crate::errors::opt_string_json(&env.non_empty("X_TOKEN_TYPE")));
    let ghost expected: Seq<(Seq<char>, Json)> = seq![
        ("ok"@, Json::Bool(true)),
        ("platform"@, Json::Str("x"@)),
        ("mode"@, Json::Str("auth_token_status"@)),
        ("access_token_present"@, Json::Bool(spec_env_non_empty(*env, "X_ACCESS_TOKEN"@) is Some)),
        ("refresh_token_present"@, Json::Bool(spec_env_non_empty(*env, "X_REFRESH_TOKEN"@) is Some)),
        ("access_token_expires_in"@, spec_opt_str_json(spec_env_non_empty(*env, "X_ACCESS_TOKEN_EXPIRES_IN"@))),
        (
            "scopes"@,
            spec_opt_str_json(
                match spec_env_non_empty(*env, "X_SCOPES"@) {
                    Some(s) => Some(s),
                    None => spec_env_non_empty(*env, "X_SCOPE"@),
                },
            ),
        ),
        ("token_type"@, spec_opt_str_json(spec_env_non_empty(*env, "X_TOKEN_TYPE"@))),
    ];
    proof {
        assert(json_members(m) =~= expected);
    }
    let v = JsonValue::Object(m);
    proof {
        assert(v@ == Json::Object(expected));
    }
    v
}

/// The LinkedIn token status report.
pub fn linkedin_token_status(env: &EnvVars) -> (v: JsonValue)
    ensures
        v@ == Json::Object(
            seq![
                ("ok"@, Json::Bool(true)),
                ("platform"@, Json::Str("linkedin"@)),
                ("mode"@, Json::Str("auth_token_status"@)),
                ("access_token_present"@, Json::Bool(spec_env_non_empty(*env, "LINKEDIN_ACCESS_TOKEN"@) is Some)),
                ("refresh_token_present"@, Json::Bool(spec_env_non_empty(*env, "LINKEDIN_REFRESH_TOKEN"@) is Some)),
                ("author_urn_present"@, Json::Bool(spec_env_non_empty(*env, "LINKEDIN_AUTHOR_URN"@) is Some)),
                ("access_token_expires_in"@, spec_opt_str_json(spec_env_non_empty(*env, "LINKEDIN_ACCESS_TOKEN_EXPIRES_IN"@))),
                ("refresh_token_expires_in"@, spec_opt_str_json(spec_env_non_empty(*env, "LINKEDIN_REFRESH_TOKEN_EXPIRES_IN"@))),
            ],
        ),
{
    let mut m: Vec<(String, JsonValue)> = Vec::new();
    proof {
        assert(json_members(m) =~= Seq::<(Seq<char>, Json)>::empty());
    }
    push_member(&mut m, "ok", JsonValue::Bool(true));
    push_member(&mut m, "platform", JsonValue::string("linkedin"));
    push_member(&mut m, "mode", JsonValue::string("auth_token_status"));
    push_member(&mut m, "access_token_present", JsonValue::Bool(env.non_empty("LINKEDIN_ACCESS_TOKEN").is_some()));
    push_member(&mut m, "refresh_token_present", JsonValue::Bool(env.non_empty("LINKEDIN_REFRESH_TOKEN").is_some()));
    push_member(&mut m, "author_urn_present", JsonValue::Bool(env.non_empty("LINKEDIN_AUTHOR_URN").is_some()));
    push_member(
        &mut m,
        "access_token_expires_in",
        crate::errors::opt_string_json(&env.non_empty("LINKEDIN_ACCESS_TOKEN_EXPIRES_IN")),
    );
    push_member(
        &mut m,
        "refresh_token_expires_in",
        crate::errors::opt_string_json(&env.non_empty("LINKEDIN_REFRESH_TOKEN_EXPIRES_IN")),
    );
    let ghost expected: Seq<(Seq<char>, Json)> = seq![
        ("ok"@, Json::Bool(true)),
        ("platform"@, Json::Str("linkedin"@)),
        ("mode"@, Json::Str("auth_token_status"@)),
        ("access_token_present"@, Json::Bool(spec_env_non_empty(*env, "LINKEDIN_ACCESS_TOKEN"@) is Some)),
        ("refresh_token_present"@, Json::Bool(spec_env_non_empty(*env, "LINKEDIN_REFRESH_TOKEN"@) is Some)),
        ("author_urn_present"@, Json::Bool(spec_env_non_empty(*env, "LINKEDIN_AUTHOR_URN"@) is Some)),
        ("access_token_expires_in"@, spec_opt_str_json(spec_env_non_empty(*env, "LINKEDIN_ACCESS_TOKEN_EXPIRES_IN"@))),
        ("refresh_token_expires_in"@, spec_opt_str_json(spec_env_non_empty(*env, "LINKEDIN_REFRESH_TOKEN_EXPIRES_IN"@))),
    ];
    proof {
        assert(json_members(m) =~= expected);
    }
    let v = JsonValue::Object(m);
    proof {
        assert(v@ == Json::Object(expected));
    }
    v
}

/// The access token `auth linkedin whoami` asks LinkedIn about.
pub fn linkedin_access_token(env: &EnvVars) -> (r: Result<String, AppError>)
    ensures
        match spec_env_var(*env, "LINKEDIN_ACCESS_TOKEN"@) {
            None => r matches Err(e) && is_missing_auth(
                e,
                "No LinkedIn access token found."@,
                Some("Run auth flow first: publo auth linkedin login, then exchange."@),
                Some("publo auth linkedin guide"@),
            ),
            Some(t) => r matches Ok(s) && s@ == t,
        },
{
    match env.var("LINKEDIN_ACCESS_TOKEN") {
        Some(t) => Ok(t),
        None => Err(
            missing_auth(
                "No LinkedIn access token found.".to_owned(),
                Some("Run auth flow first: publo auth linkedin login, then exchange."),
                Some("publo auth linkedin guide"),
            ),
        ),
    }
}

} // verus!
