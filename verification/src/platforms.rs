//! The provider side of a publish: X scopes and author key, the request
//! payloads of X and LinkedIn, the ids and URLs of a published post, what an
//! HTTP failure is reported as, and when an expired token is refreshed.
use vstd::prelude::*;

use crate::auth::{spec_env_non_empty, EnvVars};
use crate::chars::str_eq;
use crate::errors::{is_missing_auth, is_validation, missing_auth, opt_seq, validation, AppError};
use crate::guard::{lemma_words_are_words, lemma_words_of_joined_words, spec_is_word, spec_words, split_words};
use crate::json::{
    json_items, json_members, push_item, push_member, spec_as_str, spec_get, spec_get_opt,
    spec_object_insert, insert_member, Json, JsonValue,
};
use crate::lines::{join_lines, spec_join};
use crate::note::{lemma_string_views_push, spec_string_views};
use crate::paths::{path_extension, spec_path_extension};
use crate::text::{
    ascii_lowercase, concat2, concat3, decimal, spec_ascii_lowercase, spec_decimal,
};

verus! {

/// The author key of X posts: `X_AUTHOR_ID`, else `X_AUTHOR_HANDLE`, else `x:self`.
pub open spec fn spec_x_author_key(env: EnvVars) -> Seq<char> {
    match spec_env_non_empty(env, "X_AUTHOR_ID"@) {
        Some(v) => v,
        None => match spec_env_non_empty(env, "X_AUTHOR_HANDLE"@) {
            Some(v) => v,
            None => "x:self"@,
        },
    }
}

/// The author key of X posts, for the duplicate guard.
pub fn x_author_key(env: &EnvVars) -> (k: String)
    ensures
        k@ == spec_x_author_key(*env),
{
    match env.non_empty("X_AUTHOR_ID") {
        Some(v) => v,
        None => match env.non_empty("X_AUTHOR_HANDLE") {
            Some(v) => v,
            None => "x:self".to_owned(),
        },
    }
}

/// Whether the configured `X_SCOPES` grant `scope`.
pub open spec fn spec_x_scope_contains(env: EnvVars, scope: Seq<char>) -> bool {
    match spec_env_non_empty(env, "X_SCOPES"@) {
        Some(s) => spec_words(s).contains(scope),
        None => false,
    }
}

fn contains_word(words: &Vec<String>, w: &str) -> (b: bool)
    ensures
        b == spec_string_views(words@).contains(w@),
{
    let mut i: usize = 0;
    while i < words.len()
        invariant
            0 <= i <= words@.len(),
            forall|k: int| 0 <= k < i ==> words@[k]@ != w@,
        decreases words.len() - i,
    {
        if str_eq(words[i].as_str(), w) {
            proof {
                assert(spec_string_views(words@)[i as int] == w@);
            }
            return true;
        }
        i = i + 1;
    }
    proof {
        if spec_string_views(words@).contains(w@) {
            let k = choose|k: int|
                0 <= k < spec_string_views(words@).len() && spec_string_views(words@)[k] == w@;
            assert(words@[k]@ == w@);
        }
    }
    false
}

/// Whether the configured `X_SCOPES` grant `scope`.
pub fn x_scope_contains(env: &EnvVars, scope: &str) -> (b: bool)
    ensures
        b == spec_x_scope_contains(*env, scope@),
{
    match env.non_empty("X_SCOPES") {
        Some(s) => {
            let words = split_words(s.as_str());
            contains_word(&words, scope)
        },
        None => false,
    }
}

/// Adds `w` to `ws` unless it is there.
pub open spec fn spec_add_scope(ws: Seq<Seq<char>>, w: Seq<char>) -> Seq<Seq<char>> {
    if ws.contains(w) {
        ws
    } else {
        ws.push(w)
    }
}

/// The scopes X login asks for: those given, then each of `tweet.read`,
/// `tweet.write`, `users.read`, `media.write` and `offline.access` that is missing.
pub open spec fn spec_required_scopes(input: Seq<char>) -> Seq<Seq<char>> {
    spec_add_scope(
        spec_add_scope(
            spec_add_scope(
                spec_add_scope(spec_add_scope(spec_words(input), "tweet.read"@), "tweet.write"@),
                "users.read"@,
            ),
            "media.write"@,
        ),
        "offline.access"@,
    )
}

fn add_scope(ws: &mut Vec<String>, w: &str)
    ensures
        spec_string_views(final(ws)@) == spec_add_scope(spec_string_views(old(ws)@), w@),
{
    if !contains_word(ws, w) {
        let ghost before = ws@;
        let s = w.to_owned();
        ws.push(s);
        proof {
            lemma_string_views_push(before, s);
        }
    }
}

/// The X scopes with every scope publishing needs added, space-separated.
pub fn ensure_x_required_scopes(input: &str) -> (s: String)
    ensures
        s@ == spec_join(spec_required_scopes(input@), " "@),
{
    let mut parts = split_words(input);
    add_scope(&mut parts, "tweet.read");
    add_scope(&mut parts, "tweet.write");
    add_scope(&mut parts, "users.read");
    add_scope(&mut parts, "media.write");
    add_scope(&mut parts, "offline.access");
    join_lines(&parts, " ")
}

/// Every scope publishing needs is among the scopes X login asks for.
pub proof fn lemma_required_scopes_present(input: Seq<char>)
    ensures
        spec_required_scopes(input).contains("tweet.read"@),
        spec_required_scopes(input).contains("tweet.write"@),
        spec_required_scopes(input).contains("users.read"@),
        spec_required_scopes(input).contains("media.write"@),
        spec_required_scopes(input).contains("offline.access"@),
{
    let s0 = spec_words(input);
    let s1 = spec_add_scope(s0, "tweet.read"@);
    let s2 = spec_add_scope(s1, "tweet.write"@);
    let s3 = spec_add_scope(s2, "users.read"@);
    let s4 = spec_add_scope(s3, "media.write"@);
    let s5 = spec_add_scope(s4, "offline.access"@);
    lemma_add_scope_keeps(s0, "tweet.read"@);
    lemma_add_scope_keeps(s1, "tweet.write"@);
    lemma_add_scope_keeps(s2, "users.read"@);
    lemma_add_scope_keeps(s3, "media.write"@);
    lemma_add_scope_keeps(s4, "offline.access"@);
}

/// The scopes X login asks for are read back from the text it sends: the
/// words of `ensure_x_required_scopes(s)` are the words of `s` followed by
/// each required scope they miss, in order; and adding the required scopes
/// again changes nothing.
pub proof fn lemma_required_scopes_idempotent(input: Seq<char>)
    ensures
        spec_words(spec_join(spec_required_scopes(input), " "@)) == spec_required_scopes(input),
        spec_required_scopes(spec_join(spec_required_scopes(input), " "@)) == spec_required_scopes(input),
        spec_join(spec_required_scopes(spec_join(spec_required_scopes(input), " "@)), " "@) == spec_join(
            spec_required_scopes(input),
            " "@,
        ),
{
    reveal_strlit("tweet.read");
    reveal_strlit("tweet.write");
    reveal_strlit("users.read");
    reveal_strlit("media.write");
    reveal_strlit("offline.access");
    let s0 = spec_words(input);
    lemma_words_are_words(input, 0);
    let s1 = spec_add_scope(s0, "tweet.read"@);
    let s2 = spec_add_scope(s1, "tweet.write"@);
    let s3 = spec_add_scope(s2, "users.read"@);
    let s4 = spec_add_scope(s3, "media.write"@);
    let r = spec_add_scope(s4, "offline.access"@);
    lemma_add_scope_words(s0, "tweet.read"@);
    lemma_add_scope_words(s1, "tweet.write"@);
    lemma_add_scope_words(s2, "users.read"@);
    lemma_add_scope_words(s3, "media.write"@);
    lemma_add_scope_words(s4, "offline.access"@);
    lemma_words_of_joined_words(r);
    lemma_required_scopes_present(input);
}

proof fn lemma_add_scope_words(ws: Seq<Seq<char>>, w: Seq<char>)
    requires
        forall|k: int| 0 <= k < ws.len() ==> spec_is_word(#[trigger] ws[k]),
        spec_is_word(w),
    ensures
        forall|k: int| 0 <= k < spec_add_scope(ws, w).len() ==> spec_is_word(#[trigger] spec_add_scope(ws, w)[k]),
{
    if !ws.contains(w) {
        assert forall|k: int| 0 <= k < ws.push(w).len() implies spec_is_word(#[trigger] ws.push(w)[k]) by {
            if k < ws.len() {
                assert(ws.push(w)[k] == ws[k]);
            }
        }
    }
}

proof fn lemma_add_scope_keeps(ws: Seq<Seq<char>>, w: Seq<char>)
    ensures
        spec_add_scope(ws, w).contains(w),
        forall|x: Seq<char>| ws.contains(x) ==> #[trigger] spec_add_scope(ws, w).contains(x),
{
    if !ws.contains(w) {
        assert(ws.push(w)[ws.len() as int] == w);
        assert forall|x: Seq<char>| ws.contains(x) implies #[trigger] ws.push(w).contains(x) by {
            let k = choose|k: int| 0 <= k < ws.len() && ws[k] == x;
            assert(ws.push(w)[k] == x);
        }
    }
}

/// A lower-cased string member of a provider error, empty when absent.
pub open spec fn spec_lower_member(err: Json, key: Seq<char>) -> Seq<char> {
    spec_ascii_lowercase(
        match spec_as_str(spec_get(err, key)) {
            Some(s) => s,
            None => seq![],
        },
    )
}

/// X's generic 403 body: "You are not permitted to perform this action.",
/// titled Forbidden, of type `about:blank` (in any case).
pub open spec fn spec_is_generic_x_forbidden(api_error: Option<Json>) -> bool {
    match api_error {
        Some(err) => spec_lower_member(err, "detail"@) == "you are not permitted to perform this action."@
            && spec_lower_member(err, "title"@) == "forbidden"@ && spec_lower_member(err, "type"@)
            == "about:blank"@,
        None => false,
    }
}

fn lower_member(err: &JsonValue, key: &str) -> (s: String)
    ensures
        s@ == spec_lower_member(err@, key@),
{
    match err.get(key) {
        Some(v) => match v.as_str() {
            Some(t) => ascii_lowercase(t),
            None => String::new(),
        },
        None => String::new(),
    }
}

/// Whether an X error body is the generic 403 that hides the real reason.
pub fn is_generic_x_forbidden(api_error: &Option<JsonValue>) -> (b: bool)
    ensures
        b == spec_is_generic_x_forbidden(crate::json::opt_json(*api_error)),
{
    match api_error {
        Some(err) => {
            let detail = lower_member(err, "detail");
            let title = lower_member(err, "title");
            let typ = lower_member(err, "type");
            str_eq(detail.as_str(), "you are not permitted to perform this action.") && str_eq(
                title.as_str(),
                "forbidden",
            ) && str_eq(typ.as_str(), "about:blank")
        },
        None => false,
    }
}

/// A provider error as an object to add hints to: itself when it is an
/// object, `{}` when absent, else `{"provider_error": ...}`.
pub open spec fn spec_error_object(api_error: Option<Json>) -> Seq<(Seq<char>, Json)> {
    match api_error {
        Some(Json::Object(m)) => m,
        Some(other) => seq![("provider_error"@, other)],
        None => seq![],
    }
}

/// X's answer to a post, with a local hint when X gave its generic 403: an
/// over-long text first, else more than one cashtag.
pub open spec fn spec_x_error_with_hint(
    status: u16,
    api_error: Option<Json>,
    weighted_length: u64,
    cashtag_count: u64,
) -> Option<Json> {
    if status == 403 && spec_is_generic_x_forbidden(api_error) {
        let m = spec_error_object(api_error);
        if weighted_length > 280 {
            Some(
                Json::Object(
                    spec_object_insert(
                        spec_object_insert(
                            spec_object_insert(m, "local_hint"@, Json::Str("x_likely_over_length"@)),
                            "local_weighted_length"@,
                            Json::UInt(weighted_length),
                        ),
                        "local_weighted_limit"@,
                        Json::UInt(280),
                    ),
                ),
            )
        } else if cashtag_count > 1 {
            Some(
                Json::Object(
                    spec_object_insert(
                        spec_object_insert(
                            spec_object_insert(m, "local_hint"@, Json::Str("x_likely_cashtag_limit"@)),
                            "local_cashtag_count"@,
                            Json::UInt(cashtag_count),
                        ),
                        "local_cashtag_limit"@,
                        Json::UInt(1),
                    ),
                ),
            )
        } else {
            api_error
        }
    } else {
        api_error
    }
}

fn error_object(api_error: Option<JsonValue>) -> (m: Vec<(String, JsonValue)>)
    ensures
        json_members(m) == spec_error_object(crate::json::opt_json(api_error)),
{
    match api_error {
        Some(JsonValue::Object(m)) => m,
        Some(other) => {
            let mut m: Vec<(String, JsonValue)> = Vec::new();
            proof {
                assert(json_members(m) =~= Seq::<(Seq<char>, Json)>::empty());
            }
            push_member(&mut m, "provider_error", other);
            proof {
                assert(json_members(m) =~= seq![("provider_error"@, other@)]);
            }
            m
        },
        None => {
            let m: Vec<(String, JsonValue)> = Vec::new();
            proof {
                assert(json_members(m) =~= Seq::<(Seq<char>, Json)>::empty());
            }
            m
        },
    }
}

/// X's error body with the local hint of a generic 403.
pub fn x_error_with_hint(
    status: u16,
    api_error: Option<JsonValue>,
    weighted_length: u64,
    cashtag_count: u64,
) -> (r: Option<JsonValue>)
    ensures
        crate::json::opt_json(r) == spec_x_error_with_hint(
            status,
            crate::json::opt_json(api_error),
            weighted_length,
            cashtag_count,
        ),
{
    if status != 403 || !is_generic_x_forbidden(&api_error) {
        return api_error;
    }
    if weighted_length > 280 {
        let mut m = error_object(api_error);
        insert_member(&mut m, "local_hint", JsonValue::string("x_likely_over_length"));
        insert_member(&mut m, "local_weighted_length", JsonValue::UInt(weighted_length));
        insert_member(&mut m, "local_weighted_limit", JsonValue::UInt(280));
        Some(JsonValue::Object(m))
    } else if cashtag_count > 1 {
        let mut m = error_object(api_error);
        insert_member(&mut m, "local_hint", JsonValue::string("x_likely_cashtag_limit"));
        insert_member(&mut m, "local_cashtag_count", JsonValue::UInt(cashtag_count));
        insert_member(&mut m, "local_cashtag_limit", JsonValue::UInt(1));
        Some(JsonValue::Object(m))
    } else {
        api_error
    }
}

/// Whether an HTTP status is worth a retry: a server error or 429.
pub open spec fn spec_retryable_status(status: u16) -> bool {
    (500 <= status <= 599) || status == 429
}

/// The error a failed provider answer is reported as.
pub open spec fn is_provider_http_error(
    e: AppError,
    provider: Seq<char>,
    status: u16,
    api_error: Option<Json>,
) -> bool {
    e matches AppError::Http { message, status: s, api_error: a, retryable } && message@
        == provider + " API returned "@ + spec_decimal(status as nat) && s == Some(status)
        && crate::json::opt_json(a) == api_error && retryable == spec_retryable_status(status)
}

/// The error a failed provider answer (`provider` is `X` or `LinkedIn`) is
/// reported as; server errors and 429 are retryable.
pub fn provider_http_error(provider: &str, status: u16, api_error: Option<JsonValue>) -> (e: AppError)
    ensures
        is_provider_http_error(e, provider@, status, crate::json::opt_json(api_error)),
{
    let code = decimal(status as u64);
    let message = concat3(provider, " API returned ", code.as_str());
    AppError::Http {
        message,
        status: Some(status),
        api_error,
        retryable: (500 <= status && status <= 599) || status == 429,
    }
}

/// A LinkedIn answer that calls for a token refresh: 401.
pub fn should_try_refresh(status: u16) -> (b: bool)
    ensures
        b == (status == 401),
{
    status == 401
}

/// The message of an X answer that refuses the token.
pub open spec fn spec_x_token_message(during_upload: bool) -> Seq<char> {
    if during_upload {
        "X access token is invalid or expired for media upload."@
    } else {
        "X access token is invalid or expired."@
    }
}

/// What follows an X 401: once the token was refreshed, or without a refresh
/// token, the token is reported invalid; without `X_CLIENT_ID` that is
/// reported; else a refresh with the client id and refresh token.
pub open spec fn spec_x_unauthorized_step(
    r: Result<(String, String), AppError>,
    token_refreshed: bool,
    refresh_token: Option<Seq<char>>,
    client_id: Option<Seq<char>>,
    during_upload: bool,
) -> bool {
    if token_refreshed || refresh_token is None {
        r matches Err(e) && is_missing_auth(
            e,
            spec_x_token_message(during_upload),
            Some("Run publo auth x login and retry publish."@),
            Some("publo auth x login"@),
        )
    } else {
        match client_id {
            None => r matches Err(e) && is_missing_auth(
                e,
                "X_CLIENT_ID is missing."@,
                Some("Set X_CLIENT_ID in .env from your X app OAuth 2.0 settings."@),
                Some("publo auth x token-refresh"@),
            ),
            Some(c) => r matches Ok((cid, rt)) && cid@ == c && Some(rt@) == refresh_token,
        }
    }
}

/// The step after X refused the token (on a media upload when
/// `during_upload`): the client id and refresh token to refresh with, or the
/// error that ends the publish.
pub fn x_unauthorized_step(
    token_refreshed: bool,
    refresh_token: &Option<String>,
    client_id: &Option<String>,
    during_upload: bool,
) -> (r: Result<(String, String), AppError>)
    ensures
        spec_x_unauthorized_step(
            r,
            token_refreshed,
            opt_seq(*refresh_token),
            opt_seq(*client_id),
            during_upload,
        ),
{
    let message = if during_upload {
        "X access token is invalid or expired for media upload."
    } else {
        "X access token is invalid or expired."
    };
    if token_refreshed {
        return Err(
            missing_auth(
                message.to_owned(),
                Some("Run publo auth x login and retry publish."),
                Some("publo auth x login"),
            ),
        );
    }
    let rt = match refresh_token {
        Some(t) => t.clone(),
        None => {
            return Err(
                missing_auth(
                    message.to_owned(),
                    Some("Run publo auth x login and retry publish."),
                    Some("publo auth x login"),
                ),
            );
        },
    };
    match client_id {
        Some(c) => Ok((c.clone(), rt)),
        None => Err(
            missing_auth(
                "X_CLIENT_ID is missing.".to_owned(),
                Some("Set X_CLIENT_ID in .env from your X app OAuth 2.0 settings."),
                Some("publo auth x token-refresh"),
            ),
        ),
    }
}

/// An optional string as JSON: `null` when absent.
pub open spec fn spec_opt_str_json(o: Option<Seq<char>>) -> Json {
    match o {
        Some(s) => Json::Str(s),
        None => Json::Null,
    }
}

/// A list of strings as a JSON array.
pub open spec fn spec_str_array(items: Seq<Seq<char>>) -> Json {
    Json::Array(items.map_values(|s: Seq<char>| Json::Str(s)))
}

/// A list of strings as a JSON array.
pub fn string_array(items: &Vec<String>) -> (v: JsonValue)
    ensures
        v@ == spec_str_array(spec_string_views(items@)),
{
    let ghost target = spec_string_views(items@).map_values(|s: Seq<char>| Json::Str(s));
    let mut out: Vec<JsonValue> = Vec::new();
    proof {
        assert(json_items(out) =~= Seq::<Json>::empty());
    }
    let mut i: usize = 0;
    while i < items.len()
        invariant
            0 <= i <= items@.len(),
            target == spec_string_views(items@).map_values(|s: Seq<char>| Json::Str(s)),
            json_items(out) == target.subrange(0, i as int),
        decreases items.len() - i,
    {
        push_item(&mut out, JsonValue::string(items[i].as_str()));
        proof {
            assert(target.subrange(0, i + 1) =~= target.subrange(0, i as int).push(
                Json::Str(items@[i as int]@),
            ));
        }
        i = i + 1;
    }
    proof {
        assert(target.subrange(0, items@.len() as int) =~= target);
    }
    JsonValue::Array(out)
}

/// The body of an X post: its text, and its media ids when there are any.
pub open spec fn spec_x_payload(text: Seq<char>, media_ids: Seq<Seq<char>>) -> Json {
    if media_ids.len() == 0 {
        Json::Object(seq![("text"@, Json::Str(text))])
    } else {
        Json::Object(
            seq![
                ("text"@, Json::Str(text)),
                ("media"@, Json::Object(seq![("media_ids"@, spec_str_array(media_ids))])),
            ],
        )
    }
}

/// The body of an X post.
pub fn x_payload(text: &str, media_ids: &Vec<String>) -> (v: JsonValue)
    ensures
        v@ == spec_x_payload(text@, spec_string_views(media_ids@)),
{
    let mut m: Vec<(String, JsonValue)> = Vec::new();
    proof {
        assert(json_members(m) =~= Seq::<(Seq<char>, Json)>::empty());
    }
    push_member(&mut m, "text", JsonValue::string(text));
    if media_ids.len() > 0 {
        let mut media: Vec<(String, JsonValue)> = Vec::new();
        proof {
            assert(json_members(media) =~= Seq::<(Seq<char>, Json)>::empty());
        }
        push_member(&mut media, "media_ids", string_array(media_ids));
        push_member(&mut m, "media", JsonValue::Object(media));
    }
    proof {
        assert(json_members(m) =~= spec_x_payload(text@, spec_string_views(media_ids@))->Object_0);
    }
    JsonValue::Object(m)
}

/// The placeholder ids a debug preview shows for media not yet uploaded:
/// `<resolved-via-NAME-upload-N>` for N from 1.
pub open spec fn spec_numbered_placeholders(name: Seq<char>, count: nat) -> Seq<Seq<char>> {
    Seq::new(
        count,
        |i: int| "<resolved-via-"@ + name + "-upload-"@ + spec_decimal((i + 1) as nat) + ">"@,
    )
}

fn numbered_placeholders(name: &str, count: usize) -> (v: Vec<String>)
    ensures
        spec_string_views(v@) == spec_numbered_placeholders(name@, count as nat),
{
    let ghost target = spec_numbered_placeholders(name@, count as nat);
    let mut v: Vec<String> = Vec::new();
    let mut i: usize = 0;
    while i < count
        invariant
            0 <= i <= count,
            target == spec_numbered_placeholders(name@, count as nat),
            spec_string_views(v@) == target.subrange(0, i as int),
        decreases count - i,
    {
        let n = decimal((i as u64) + 1);
        let head = concat3("<resolved-via-", name, "-upload-");
        let s = concat3(head.as_str(), n.as_str(), ">");
        let ghost before = v@;
        v.push(s);
        proof {
            lemma_string_views_push(before, s);
            assert(target.subrange(0, i + 1) =~= target.subrange(0, i as int).push(s@));
        }
        i = i + 1;
    }
    proof {
        assert(target.subrange(0, count as int) =~= target);
    }
    v
}

/// The media ids an X debug preview shows.
pub fn x_preview_media_ids(count: usize) -> (v: Vec<String>)
    ensures
        spec_string_views(v@) == spec_numbered_placeholders("x"@, count as nat),
{
    numbered_placeholders("x", count)
}

/// The media ids a LinkedIn debug preview shows: one unnumbered placeholder
/// for a single image, numbered ones otherwise.
pub open spec fn spec_linkedin_preview_ids(count: nat) -> Seq<Seq<char>> {
    if count == 1 {
        seq!["<resolved-via-linkedin-upload>"@]
    } else {
        spec_numbered_placeholders("linkedin"@, count)
    }
}

/// The media ids a LinkedIn debug preview shows.
pub fn linkedin_preview_media_ids(count: usize) -> (v: Vec<String>)
    ensures
        spec_string_views(v@) == spec_linkedin_preview_ids(count as nat),
{
    if count == 1 {
        let mut v: Vec<String> = Vec::new();
        let s = "<resolved-via-linkedin-upload>".to_owned();
        v.push(s);
        proof {
            assert(spec_string_views(v@) =~= seq![s@]);
        }
        return v;
    }
    numbered_placeholders("linkedin", count)
}

/// The body of a LinkedIn post: public, on the main feed, published, with
/// one image as `media` or several as `multiImage`.
pub open spec fn spec_linkedin_payload(author: Seq<char>, commentary: Seq<char>, media_ids: Seq<Seq<char>>) -> Json {
    let base = seq![
        ("author"@, Json::Str(author)),
        ("commentary"@, Json::Str(commentary)),
        ("visibility"@, Json::Str("PUBLIC"@)),
        (
            "distribution"@,
            Json::Object(
                seq![
                    ("feedDistribution"@, Json::Str("MAIN_FEED"@)),
                    ("targetEntities"@, Json::Array(seq![])),
                    ("thirdPartyDistributionChannels"@, Json::Array(seq![])),
                ],
            ),
        ),
        ("lifecycleState"@, Json::Str("PUBLISHED"@)),
        ("isReshareDisabledByAuthor"@, Json::Bool(false)),
    ];
    if media_ids.len() == 0 {
        Json::Object(base)
    } else if media_ids.len() == 1 {
        Json::Object(
            base.push(
                ("content"@, Json::Object(seq![("media"@, Json::Object(seq![("id"@, Json::Str(media_ids[0]))]))])),
            ),
        )
    } else {
        Json::Object(
            base.push(
                (
                    "content"@,
                    Json::Object(
                        seq![
                            (
                                "multiImage"@,
                                Json::Object(
                                    seq![
                                        (
                                            "images"@,
                                            Json::Array(
                                                media_ids.map_values(
                                                    |id: Seq<char>| Json::Object(seq![("id"@, Json::Str(id))]),
                                                ),
                                            ),
                                        ),
                                    ],
                                ),
                            ),
                        ],
                    ),
                ),
            ),
        )
    }
}

fn empty_array() -> (v: JsonValue)
    ensures
        v@ == Json::Array(seq![]),
{
    let items: Vec<JsonValue> = Vec::new();
    proof {
        assert(json_items(items) =~= Seq::<Json>::empty());
    }
    JsonValue::Array(items)
}

fn id_object(id: &str) -> (v: JsonValue)
    ensures
        v@ == Json::Object(seq![("id"@, Json::Str(id@))]),
{
    let mut m: Vec<(String, JsonValue)> = Vec::new();
    proof {
        assert(json_members(m) =~= Seq::<(Seq<char>, Json)>::empty());
    }
    push_member(&mut m, "id", JsonValue::string(id));
    proof {
        assert(json_members(m) =~= seq![("id"@, Json::Str(id@))]);
    }
    JsonValue::Object(m)
}

/// The body of a LinkedIn post by `author` with its media ids (image URNs).
pub fn linkedin_payload(author: &str, commentary: &str, media_ids: &Vec<String>) -> (v: JsonValue)
    ensures
        v@ == spec_linkedin_payload(author@, commentary@, spec_string_views(media_ids@)),
{
    let mut dist: Vec<(String, JsonValue)> = Vec::new();
    proof {
        assert(json_members(dist) =~= Seq::<(Seq<char>, Json)>::empty());
    }
    push_member(&mut dist, "feedDistribution", JsonValue::string("MAIN_FEED"));
    push_member(&mut dist, "targetEntities", empty_array());
    push_member(&mut dist, "thirdPartyDistributionChannels", empty_array());
    proof {
        assert(json_members(dist) =~= seq![
            ("feedDistribution"@, Json::Str("MAIN_FEED"@)),
            ("targetEntities"@, Json::Array(seq![])),
            ("thirdPartyDistributionChannels"@, Json::Array(seq![])),
        ]);
    }
    let mut m: Vec<(String, JsonValue)> = Vec::new();
    proof {
        assert(json_members(m) =~= Seq::<(Seq<char>, Json)>::empty());
    }
    push_member(&mut m, "author", JsonValue::string(author));
    push_member(&mut m, "commentary", JsonValue::string(commentary));
    push_member(&mut m, "visibility", JsonValue::string("PUBLIC"));
    push_member(&mut m, "distribution", JsonValue::Object(dist));
    push_member(&mut m, "lifecycleState", JsonValue::string("PUBLISHED"));
    push_member(&mut m, "isReshareDisabledByAuthor", JsonValue::Bool(false));
    let ghost ids = spec_string_views(media_ids@);
    let ghost base = json_members(m);
    proof {
        assert(base =~= spec_linkedin_payload(author@, commentary@, seq![])->Object_0);
    }
    if media_ids.len() == 1 {
        let mut media: Vec<(String, JsonValue)> = Vec::new();
        proof {
            assert(json_members(media) =~= Seq::<(Seq<char>, Json)>::empty());
        }
        push_member(&mut media, "media", id_object(media_ids[0].as_str()));
        proof {
            assert(json_members(media) =~= seq![("media"@, Json::Object(seq![("id"@, Json::Str(ids[0]))]))]);
        }
        push_member(&mut m, "content", JsonValue::Object(media));
    } else if media_ids.len() > 1 {
        let ghost target = ids.map_values(|id: Seq<char>| Json::Object(seq![("id"@, Json::Str(id))]));
        let mut images: Vec<JsonValue> = Vec::new();
        proof {
            assert(json_items(images) =~= Seq::<Json>::empty());
        }
        let mut i: usize = 0;
        while i < media_ids.len()
            invariant
                0 <= i <= media_ids@.len(),
                ids == spec_string_views(media_ids@),
                target == ids.map_values(|id: Seq<char>| Json::Object(seq![("id"@, Json::Str(id))])),
                json_items(images) == target.subrange(0, i as int),
            decreases media_ids.len() - i,
        {
            push_item(&mut images, id_object(media_ids[i].as_str()));
            proof {
                assert(target.subrange(0, i + 1) =~= target.subrange(0, i as int).push(
                    Json::Object(seq![("id"@, Json::Str(media_ids@[i as int]@))]),
                ));
            }
            i = i + 1;
        }
        proof {
            assert(target.subrange(0, media_ids@.len() as int) =~= target);
        }
        let mut multi: Vec<(String, JsonValue)> = Vec::new();
        proof {
            assert(json_members(multi) =~= Seq::<(Seq<char>, Json)>::empty());
        }
        push_member(&mut multi, "images", JsonValue::Array(images));
        proof {
            assert(json_members(multi) =~= seq![("images"@, Json::Array(target))]);
        }
        let mut content: Vec<(String, JsonValue)> = Vec::new();
        proof {
            assert(json_members(content) =~= Seq::<(Seq<char>, Json)>::empty());
        }
        push_member(&mut content, "multiImage", JsonValue::Object(multi));
        proof {
            assert(json_members(content) =~= seq![("multiImage"@, Json::Object(seq![("images"@, Json::Array(target))]))]);
        }
        push_member(&mut m, "content", JsonValue::Object(content));
    }
    proof {
        assert(json_members(m) =~= spec_linkedin_payload(author@, commentary@, ids)->Object_0);
    }
    JsonValue::Object(m)
}

/// The id of a published X post: `data.id` of X's answer.
pub open spec fn spec_x_post_id(body: Option<Json>) -> Option<Seq<char>> {
    spec_as_str(spec_get_opt(spec_get_opt(body, "data"@), "id"@))
}

/// The id of a published X post.
pub fn x_post_id(body: &Option<JsonValue>) -> (r: Option<String>)
    ensures
        opt_seq(r) == spec_x_post_id(crate::json::opt_json(*body)),
{
    match body {
        Some(b) => match b.get("data") {
            Some(d) => match d.get("id") {
                Some(i) => match i.as_str() {
                    Some(s) => Some(s.to_owned()),
                    None => None,
                },
                None => None,
            },
            None => None,
        },
        None => None,
    }
}

/// The web address of an X post.
pub fn x_post_url(post_id: &str) -> (u: String)
    ensures
        u@ == "https://x.com/i/web/status/"@ + post_id@,
{
    concat2("https://x.com/i/web/status/", post_id)
}

/// The id of a published LinkedIn post: `id` of LinkedIn's answer, else the
/// `x-restli-id` header.
pub open spec fn spec_linkedin_post_id(body: Option<Json>, request_id: Option<Seq<char>>) -> Option<Seq<char>> {
    match spec_as_str(spec_get_opt(body, "id"@)) {
        Some(i) => Some(i),
        None => request_id,
    }
}

/// The id of a published LinkedIn post.
pub fn linkedin_post_id(body: &Option<JsonValue>, request_id: &Option<String>) -> (r: Option<String>)
    ensures
        opt_seq(r) == spec_linkedin_post_id(crate::json::opt_json(*body), opt_seq(*request_id)),
{
    let from_body = match body {
        Some(b) => match b.get("id") {
            Some(i) => match i.as_str() {
                Some(s) => Some(s.to_owned()),
                None => None,
            },
            None => None,
        },
        None => None,
    };
    match from_body {
        Some(s) => Some(s),
        None => crate::errors::copy_opt(request_id),
    }
}

/// The web address of a LinkedIn post.
pub fn linkedin_post_url(post_id: &str) -> (u: String)
    ensures
        u@ == "https://www.linkedin.com/feed/update/"@ + post_id@ + "/"@,
{
    concat3("https://www.linkedin.com/feed/update/", post_id, "/")
}

/// The content type of an image upload, by extension (in any case): PNG or JPEG.
pub open spec fn spec_media_content_type(path: Seq<char>) -> Option<Seq<char>> {
    let ext = crate::publish::spec_lower_extension(path);
    if ext == "png"@ {
        Some("image/png"@)
    } else if ext == "jpg"@ || ext == "jpeg"@ {
        Some("image/jpeg"@)
    } else {
        None
    }
}

/// The content type of an image to upload.
pub fn media_content_type(image_path: &str) -> (r: Result<String, AppError>)
    ensures
        match spec_media_content_type(image_path@) {
            Some(t) => r matches Ok(s) && s@ == t,
            None => r matches Err(e) && is_validation(
                e,
                "Unsupported media extension for '"@ + image_path@ + "'. Allowed: .png, .jpg, .jpeg"@,
                Some("Use PNG or JPEG image files."@),
                None,
            ),
        },
{
    let ext = crate::publish::lower_extension(image_path);
    if str_eq(ext.as_str(), "png") {
        Ok("image/png".to_owned())
    } else if str_eq(ext.as_str(), "jpg") || str_eq(ext.as_str(), "jpeg") {
        Ok("image/jpeg".to_owned())
    } else {
        let message = concat3(
            "Unsupported media extension for '",
            image_path,
            "'. Allowed: .png, .jpg, .jpeg",
        );
        Err(validation(message, Some("Use PNG or JPEG image files."), None))
    }
}

} // verus!
