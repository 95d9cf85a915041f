//! The OAuth login of LinkedIn and X: the settings a login needs, the state
//! and PKCE values, the authorization URL, the checks of the callback, the
//! token requests, and the `.env` values a token answer writes.
use vstd::prelude::*;

use crate::auth::{spec_env_non_empty, spec_env_var, EnvVars};
use crate::chars::{str_eq, string_from_chars};
use crate::errors::{is_missing_auth, is_validation, missing_auth, opt_seq, validation, AppError};
use crate::guard::{sha256_digest, spec_sha256};
use crate::lines::spec_join;
use crate::note::{lemma_string_views_push, spec_string_views};
use crate::platforms::{ensure_x_required_scopes, spec_required_scopes};
use crate::substack::{spec_percent_encode, url_encode};
use crate::text::{concat2, concat3, decimal, spec_decimal};
use crate::urls::{spec_url_parse, url_parse};

verus! {

/// `rand::Rng::random_range(0..bound)` on the thread's generator: a number
/// drawn uniformly below `bound`. The contract claims only that it is below
/// `bound`; which number comes, and that the draw is uniform, is left unsaid.
#[verifier::external_body]
fn random_below(bound: usize) -> (r: usize)
    requires
        bound > 0,
    ensures
        r < bound,
{
    <rand::rngs::ThreadRng as rand::Rng>::random_range(&mut rand::rng(), 0..bound)
}

/// The letters and digits an OAuth state is drawn from.
pub open spec fn spec_state_charset() -> Seq<char> {
    "ABCDEFGHIJKLMNOPQRSTUVWXYZabcdefghijklmnopqrstuvwxyz0123456789"@
}

/// The characters a PKCE code verifier is drawn from: letters, digits and `-._~`.
pub open spec fn spec_verifier_charset() -> Seq<char> {
    "ABCDEFGHIJKLMNOPQRSTUVWXYZabcdefghijklmnopqrstuvwxyz0123456789-._~"@
}

/// The text whose `i`-th character is the charset character at the `i`-th draw.
pub fn text_from_draws(charset: &str, draws: &Vec<usize>) -> (s: String)
    requires
        forall|i: int| 0 <= i < draws@.len() ==> draws@[i] < charset@.len(),
    ensures
        s@.len() == draws@.len(),
        forall|i: int| 0 <= i < draws@.len() ==> s@[i] == charset@[draws@[i] as int],
{
    let cs = crate::chars::chars_of(charset);
    let mut out: Vec<char> = Vec::new();
    let mut i: usize = 0;
    while i < draws.len()
        invariant
            cs@ == charset@,
            forall|k: int| 0 <= k < draws@.len() ==> draws@[k] < charset@.len(),
            0 <= i <= draws@.len(),
            out@.len() == i,
            forall|k: int| 0 <= k < i ==> out@[k] == charset@[draws@[k] as int],
        decreases draws.len() - i,
    {
        let c = cs[draws[i]];
        out.push(c);
        i = i + 1;
    }
    string_from_chars(out.as_slice())
}

/// Random text of `length` characters of `charset`: each character is the
/// charset character at an index drawn below the charset's length.
fn random_text(charset: &str, length: usize) -> (s: String)
    requires
        charset@.len() > 0,
    ensures
        s@.len() == length,
        forall|i: int| 0 <= i < length ==> charset@.contains(#[trigger] s@[i]),
{
    let n = crate::chars::chars_of(charset).len();
    let mut draws: Vec<usize> = Vec::new();
    let mut i: usize = 0;
    while i < length
        invariant
            n == charset@.len(),
            n > 0,
            0 <= i <= length,
            draws@.len() == i,
            forall|k: int| 0 <= k < i ==> draws@[k] < charset@.len(),
        decreases length - i,
    {
        draws.push(random_below(n));
        i = i + 1;
    }
    let s = text_from_draws(charset, &draws);
    proof {
        assert forall|i: int| 0 <= i < length implies charset@.contains(#[trigger] s@[i]) by {
            assert(s@[i] == charset@[draws@[i] as int]);
        }
    }
    s
}

/// A random OAuth state of `length` letters and digits.
pub fn generate_state(length: usize) -> (s: String)
    ensures
        s@.len() == length,
        forall|i: int| 0 <= i < length ==> spec_state_charset().contains(#[trigger] s@[i]),
{
    proof {
        reveal_strlit("ABCDEFGHIJKLMNOPQRSTUVWXYZabcdefghijklmnopqrstuvwxyz0123456789");
    }
    random_text("ABCDEFGHIJKLMNOPQRSTUVWXYZabcdefghijklmnopqrstuvwxyz0123456789", length)
}

/// A random PKCE code verifier of `length` unreserved characters.
pub fn generate_code_verifier(length: usize) -> (s: String)
    ensures
        s@.len() == length,
        forall|i: int| 0 <= i < length ==> spec_verifier_charset().contains(#[trigger] s@[i]),
{
    proof {
        reveal_strlit("ABCDEFGHIJKLMNOPQRSTUVWXYZabcdefghijklmnopqrstuvwxyz0123456789-._~");
    }
    random_text("ABCDEFGHIJKLMNOPQRSTUVWXYZabcdefghijklmnopqrstuvwxyz0123456789-._~", length)
}

/// The URL-safe Base64 text of `bytes`, without padding.
pub uninterp spec fn spec_base64_url_nopad(bytes: Seq<u8>) -> Seq<char>;

/// `base64::engine::general_purpose::URL_SAFE_NO_PAD.encode(bytes)`. The
/// contract names the text only.
#[verifier::external_body]
fn base64_url_nopad(bytes: &[u8]) -> (s: String)
    ensures
        s@ == spec_base64_url_nopad(bytes@),
{
    <base64::engine::GeneralPurpose as base64::Engine>::encode(
        &base64::engine::general_purpose::URL_SAFE_NO_PAD,
        bytes,
    )
}

/// The PKCE S256 challenge of a verifier: its SHA-256 digest, URL-safe
/// Base64 without padding.
pub open spec fn spec_pkce_challenge(verifier: Seq<char>) -> Seq<char> {
    spec_base64_url_nopad(spec_sha256(vstd::utf8::encode_utf8(verifier)))
}

/// The PKCE S256 challenge of a code verifier.
pub fn pkce_code_challenge(code_verifier: &str) -> (c: String)
    ensures
        c@ == spec_pkce_challenge(code_verifier@),
{
    let d = sha256_digest(code_verifier.as_bytes());
    base64_url_nopad(d.as_slice())
}

/// What a login needs: the app's credentials, the callback, the scopes, and
/// where the local callback server listens.
#[derive(Debug)]
pub struct LoginSettings {
    pub client_id: String,
    pub client_secret: Option<String>,
    pub redirect_uri: String,
    pub scopes: String,
    pub bind_target: String,
    pub expected_path: String,
}

/// The callback server of a parsed redirect URL: its host and port (80 when
/// the URL names none), and its path (`/` when empty).
pub open spec fn spec_callback_server(s: LoginSettings, host: Seq<char>, port: Option<u16>, path: Seq<char>) -> bool {
    &&& s.bind_target@ == host + ":"@ + spec_decimal(
        match port {
            Some(p) => p as nat,
            None => 80nat,
        },
    )
    &&& s.expected_path@ == if path.len() == 0 {
        "/"@
    } else {
        path
    }
}

fn callback_server(host: &str, port: Option<u16>, path: &str) -> (r: (String, String))
    ensures
        r.0@ == host@ + ":"@ + spec_decimal(
            match port {
                Some(p) => p as nat,
                None => 80nat,
            },
        ),
        r.1@ == if path@.len() == 0 {
            "/"@
        } else {
            path@
        },
{
    let p: u16 = match port {
        Some(p) => p,
        None => 80,
    };
    let digits = decimal(p as u64);
    let bind = concat3(host, ":", digits.as_str());
    let expected = if path.unicode_len() == 0 {
        "/".to_owned()
    } else {
        path.to_owned()
    };
    (bind, expected)
}

/// The settings of an X login: `X_CLIENT_ID` and `X_REDIRECT_URI` are
/// required; the scopes are `X_SCOPES` (or the default set) with every scope
/// publishing needs; the redirect URL must parse and name a host.
pub open spec fn spec_x_login_settings(r: Result<LoginSettings, AppError>, env: EnvVars) -> bool {
    match spec_env_non_empty(env, "X_CLIENT_ID"@) {
        None => r matches Err(e) && is_missing_auth(
            e,
            "X_CLIENT_ID is missing."@,
            Some("Set X_CLIENT_ID in .env from your X app OAuth 2.0 settings."@),
            Some("publo auth x login"@),
        ),
        Some(client_id) => match spec_env_non_empty(env, "X_REDIRECT_URI"@) {
            None => r matches Err(e) && is_missing_auth(
                e,
                "X_REDIRECT_URI is missing."@,
                Some("Set X_REDIRECT_URI in .env and match it in your X app callback URL settings."@),
                Some("publo auth x login"@),
            ),
            Some(redirect) => match spec_url_parse(redirect) {
                Err(msg) => r matches Err(e) && is_validation(
                    e,
                    "Invalid X_REDIRECT_URI: "@ + msg,
                    Some("Use a full URL like http://127.0.0.1:8789/callback"@),
                    Some("publo auth x login"@),
                ),
                Ok(u) => match u.host {
                    None => r matches Err(e) && is_validation(
                        e,
                        "X_REDIRECT_URI must include a host."@,
                        Some("Use localhost or 127.0.0.1 callback URL."@),
                        Some("publo auth x login"@),
                    ),
                    Some(host) => r matches Ok(s) && s.client_id@ == client_id && opt_seq(
                        s.client_secret,
                    ) == spec_env_non_empty(env, "X_CLIENT_SECRET"@) && s.redirect_uri@ == redirect
                        && s.scopes@ == spec_join(
                        spec_required_scopes(
                            match spec_env_non_empty(env, "X_SCOPES"@) {
                                Some(v) => v,
                                None => "tweet.read tweet.write users.read media.write offline.access"@,
                            },
                        ),
                        " "@,
                    ) && spec_callback_server(s, host, u.port, u.path),
                },
            },
        },
    }
}

/// The settings of an X login from the environment.
pub fn x_login_settings(env: &EnvVars) -> (r: Result<LoginSettings, AppError>)
    ensures
        spec_x_login_settings(r, *env),
{
    let client_id = match env.non_empty("X_CLIENT_ID") {
        Some(v) => v,
        None => {
            return Err(
                missing_auth(
                    "X_CLIENT_ID is missing.".to_owned(),
                    Some("Set X_CLIENT_ID in .env from your X app OAuth 2.0 settings."),
                    Some("publo auth x login"),
                ),
            );
        },
    };
    let redirect_uri = match env.non_empty("X_REDIRECT_URI") {
        Some(v) => v,
        None => {
            return Err(
                missing_auth(
                    "X_REDIRECT_URI is missing.".to_owned(),
                    Some("Set X_REDIRECT_URI in .env and match it in your X app callback URL settings."),
                    Some("publo auth x login"),
                ),
            );
        },
    };
    let configured = match env.non_empty("X_SCOPES") {
        Some(v) => v,
        None => "tweet.read tweet.write users.read media.write offline.access".to_owned(),
    };
    let scopes = ensure_x_required_scopes(configured.as_str());
    let client_secret = env.non_empty("X_CLIENT_SECRET");
    let parsed = match url_parse(redirect_uri.as_str()) {
        Ok(u) => u,
        Err(msg) => {
            let message = concat2("Invalid X_REDIRECT_URI: ", msg.as_str());
            return Err(
                validation(
                    message,
                    Some("Use a full URL like http://127.0.0.1:8789/callback"),
                    Some("publo auth x login"),
                ),
            );
        },
    };
    let host = match &parsed.host {
        Some(h) => h,
        None => {
            return Err(
                validation(
                    "X_REDIRECT_URI must include a host.".to_owned(),
                    Some("Use localhost or 127.0.0.1 callback URL."),
                    Some("publo auth x login"),
                ),
            );
        },
    };
    let (bind_target, expected_path) = callback_server(host.as_str(), parsed.port, parsed.path.as_str());
    Ok(LoginSettings { client_id, client_secret, redirect_uri, scopes, bind_target, expected_path })
}

/// The settings of a LinkedIn login: `LINKEDIN_CLIENT_ID`,
/// `LINKEDIN_REDIRECT_URI` and `LINKEDIN_CLIENT_SECRET` are required; the
/// scopes are `LINKEDIN_SCOPES`, else `w_member_social`; the redirect URL
/// must parse and name a host.
pub open spec fn spec_linkedin_login_settings(r: Result<LoginSettings, AppError>, env: EnvVars) -> bool {
    match spec_env_var(env, "LINKEDIN_CLIENT_ID"@) {
        None => r matches Err(e) && is_missing_auth(
            e,
            "LINKEDIN_CLIENT_ID is missing."@,
            Some("Set LINKEDIN_CLIENT_ID in .env from your LinkedIn app settings."@),
            Some("publo auth linkedin guide"@),
        ),
        Some(client_id) => match spec_env_var(env, "LINKEDIN_REDIRECT_URI"@) {
            None => r matches Err(e) && is_missing_auth(
                e,
                "LINKEDIN_REDIRECT_URI is missing."@,
                Some("Set LINKEDIN_REDIRECT_URI in .env and match it in LinkedIn app settings."@),
                Some("publo auth linkedin guide"@),
            ),
            Some(redirect) => match spec_env_var(env, "LINKEDIN_CLIENT_SECRET"@) {
                None => r matches Err(e) && is_missing_auth(
                    e,
                    "LINKEDIN_CLIENT_SECRET is missing."@,
                    Some("Set LINKEDIN_CLIENT_SECRET in .env from your LinkedIn app settings."@),
                    Some("publo auth linkedin guide"@),
                ),
                Some(secret) => match spec_url_parse(redirect) {
                    Err(msg) => r matches Err(e) && is_validation(
                        e,
                        "Invalid LINKEDIN_REDIRECT_URI: "@ + msg,
                        Some("Use a full URL like http://localhost:8788/callback"@),
                        Some("publo auth linkedin login"@),
                    ),
                    Ok(u) => match u.host {
                        None => r matches Err(e) && is_validation(
                            e,
                            "LINKEDIN_REDIRECT_URI must include a host."@,
                            Some("Use localhost or 127.0.0.1 callback URL."@),
                            Some("publo auth linkedin login"@),
                        ),
                        Some(host) => r matches Ok(s) && s.client_id@ == client_id && opt_seq(
                            s.client_secret,
                        ) == Some(secret) && s.redirect_uri@ == redirect && s.scopes@ == match spec_env_var(
                            env,
                            "LINKEDIN_SCOPES"@,
                        ) {
                            Some(v) => v,
                            None => "w_member_social"@,
                        } && spec_callback_server(s, host, u.port, u.path),
                    },
                },
            },
        },
    }
}

/// The settings of a LinkedIn login from the environment.
pub fn linkedin_login_settings(env: &EnvVars) -> (r: Result<LoginSettings, AppError>)
    ensures
        spec_linkedin_login_settings(r, *env),
{
    let client_id = match env.var("LINKEDIN_CLIENT_ID") {
        Some(v) => v,
        None => {
            return Err(
                missing_auth(
                    "LINKEDIN_CLIENT_ID is missing.".to_owned(),
                    Some("Set LINKEDIN_CLIENT_ID in .env from your LinkedIn app settings."),
                    Some("publo auth linkedin guide"),
                ),
            );
        },
    };
    let redirect_uri = match env.var("LINKEDIN_REDIRECT_URI") {
        Some(v) => v,
        None => {
            return Err(
                missing_auth(
                    "LINKEDIN_REDIRECT_URI is missing.".to_owned(),
                    Some("Set LINKEDIN_REDIRECT_URI in .env and match it in LinkedIn app settings."),
                    Some("publo auth linkedin guide"),
                ),
            );
        },
    };
    let scopes = match env.var("LINKEDIN_SCOPES") {
        Some(v) => v,
        None => "w_member_social".to_owned(),
    };
    let client_secret = match env.var("LINKEDIN_CLIENT_SECRET") {
        Some(v) => v,
        None => {
            return Err(
                missing_auth(
                    "LINKEDIN_CLIENT_SECRET is missing.".to_owned(),
                    Some("Set LINKEDIN_CLIENT_SECRET in .env from your LinkedIn app settings."),
                    Some("publo auth linkedin guide"),
                ),
            );
        },
    };
    let parsed = match url_parse(redirect_uri.as_str()) {
        Ok(u) => u,
        Err(msg) => {
            let message = concat2("Invalid LINKEDIN_REDIRECT_URI: ", msg.as_str());
            return Err(
                validation(
                    message,
                    Some("Use a full URL like http://localhost:8788/callback"),
                    Some("publo auth linkedin login"),
                ),
            );
        },
    };
    let host = match &parsed.host {
        Some(h) => h,
        None => {
            return Err(
                validation(
                    "LINKEDIN_REDIRECT_URI must include a host.".to_owned(),
                    Some("Use localhost or 127.0.0.1 callback URL."),
                    Some("publo auth linkedin login"),
                ),
            );
        },
    };
    let (bind_target, expected_path) = callback_server(host.as_str(), parsed.port, parsed.path.as_str());
    Ok(
        LoginSettings {
            client_id,
            client_secret: Some(client_secret),
            redirect_uri,
            scopes,
            bind_target,
            expected_path,
        },
    )
}

/// A value percent-encoded for a query string.
pub open spec fn spec_enc(s: Seq<char>) -> Seq<char> {
    spec_percent_encode(vstd::utf8::encode_utf8(s))
}

/// X's authorization URL, with the PKCE S256 challenge.
pub open spec fn spec_x_authorize_url(s: LoginSettings, state: Seq<char>, challenge: Seq<char>) -> Seq<char> {
    "https://twitter.com/i/oauth2/authorize?response_type=code&client_id="@ + spec_enc(s.client_id@)
        + "&redirect_uri="@ + spec_enc(s.redirect_uri@) + "&scope="@ + spec_enc(s.scopes@)
        + "&state="@ + spec_enc(state) + "&code_challenge="@ + spec_enc(challenge)
        + "&code_challenge_method=S256"@
}

/// X's authorization URL.
pub fn x_authorize_url(settings: &LoginSettings, state: &str, code_challenge: &str) -> (u: String)
    ensures
        u@ == spec_x_authorize_url(*settings, state@, code_challenge@),
{
    let a = url_encode(settings.client_id.as_str());
    let b = url_encode(settings.redirect_uri.as_str());
    let c = url_encode(settings.scopes.as_str());
    let d = url_encode(state);
    let e = url_encode(code_challenge);
    let mut v: Vec<char> = Vec::new();
    crate::text::push_str(&mut v, "https://twitter.com/i/oauth2/authorize?response_type=code&client_id=");
    crate::text::push_str(&mut v, a.as_str());
    crate::text::push_str(&mut v, "&redirect_uri=");
    crate::text::push_str(&mut v, b.as_str());
    crate::text::push_str(&mut v, "&scope=");
    crate::text::push_str(&mut v, c.as_str());
    crate::text::push_str(&mut v, "&state=");
    crate::text::push_str(&mut v, d.as_str());
    crate::text::push_str(&mut v, "&code_challenge=");
    crate::text::push_str(&mut v, e.as_str());
    crate::text::push_str(&mut v, "&code_challenge_method=S256");
    proof {
        assert(v@ =~= spec_x_authorize_url(*settings, state@, code_challenge@));
    }
    string_from_chars(v.as_slice())
}

/// LinkedIn's authorization URL.
pub open spec fn spec_linkedin_authorize_url(s: LoginSettings, state: Seq<char>) -> Seq<char> {
    "https://www.linkedin.com/oauth/v2/authorization?response_type=code&client_id="@ + spec_enc(
        s.client_id@,
    ) + "&redirect_uri="@ + spec_enc(s.redirect_uri@) + "&scope="@ + spec_enc(s.scopes@)
        + "&state="@ + spec_enc(state)
}

/// LinkedIn's authorization URL.
pub fn linkedin_authorize_url(settings: &LoginSettings, state: &str) -> (u: String)
    ensures
        u@ == spec_linkedin_authorize_url(*settings, state@),
{
    let a = url_encode(settings.client_id.as_str());
    let b = url_encode(settings.redirect_uri.as_str());
    let c = url_encode(settings.scopes.as_str());
    let d = url_encode(state);
    let mut v: Vec<char> = Vec::new();
    crate::text::push_str(
        &mut v,
        "https://www.linkedin.com/oauth/v2/authorization?response_type=code&client_id=",
    );
    crate::text::push_str(&mut v, a.as_str());
    crate::text::push_str(&mut v, "&redirect_uri=");
    crate::text::push_str(&mut v, b.as_str());
    crate::text::push_str(&mut v, "&scope=");
    crate::text::push_str(&mut v, c.as_str());
    crate::text::push_str(&mut v, "&state=");
    crate::text::push_str(&mut v, d.as_str());
    proof {
        assert(v@ =~= spec_linkedin_authorize_url(*settings, state@));
    }
    string_from_chars(v.as_slice())
}

/// The provider a login callback comes from.
#[derive(Clone, Copy, PartialEq, Eq, Structural, Debug)]
pub enum OAuthProvider {
    Linkedin,
    X,
}

/// The name of a provider in callback messages.
pub open spec fn spec_provider_label(p: OAuthProvider) -> Seq<char> {
    match p {
        OAuthProvider::Linkedin => "LinkedIn"@,
        OAuthProvider::X => "X"@,
    }
}

/// The login command of a provider.
pub open spec fn spec_login_command(p: OAuthProvider) -> Seq<char> {
    match p {
        OAuthProvider::Linkedin => "publo auth linkedin login"@,
        OAuthProvider::X => "publo auth x login"@,
    }
}

/// The checks of a login callback, in order: the provider reported no error,
/// and sent a code and the state the login started with.
pub open spec fn spec_callback_check(
    r: Result<String, AppError>,
    p: OAuthProvider,
    error: Option<Seq<char>>,
    error_description: Option<Seq<char>>,
    code: Option<Seq<char>>,
    state: Option<Seq<char>>,
    expected_state: Seq<char>,
) -> bool {
    match error {
        Some(err) => r matches Err(e) && is_validation(
            e,
            spec_provider_label(p) + " OAuth returned error: "@ + err + match error_description {
                Some(d) => " ("@ + d + ")"@,
                None => seq![],
            },
            Some(
                "Retry consent flow and ensure scopes are approved in "@ + spec_provider_label(p)
                    + " app settings."@,
            ),
            Some(spec_login_command(p)),
        ),
        None => match code {
            None => r matches Err(e) && is_validation(
                e,
                spec_provider_label(p) + " callback did not include authorization code."@,
                Some("Retry auth flow and complete consent."@),
                Some(spec_login_command(p)),
            ),
            Some(c) => match state {
                None => r matches Err(e) && is_validation(
                    e,
                    spec_provider_label(p) + " callback did not include state."@,
                    Some("Retry auth flow."@),
                    Some(spec_login_command(p)),
                ),
                Some(s) => if s == expected_state {
                    r matches Ok(x) && x@ == c
                } else {
                    r matches Err(e) && is_validation(
                        e,
                        spec_provider_label(p) + " OAuth state mismatch."@,
                        Some("Retry auth flow; ensure you use the latest auth URL."@),
                        Some(spec_login_command(p)),
                    )
                },
            },
        },
    }
}

/// The authorization code of a login callback, once its checks pass.
pub fn check_oauth_callback(
    provider: OAuthProvider,
    error: Option<String>,
    error_description: Option<String>,
    code: Option<String>,
    state: Option<String>,
    expected_state: &str,
) -> (r: Result<String, AppError>)
    ensures
        spec_callback_check(
            r,
            provider,
            opt_seq(error),
            opt_seq(error_description),
            opt_seq(code),
            opt_seq(state),
            expected_state@,
        ),
{
    let label = match provider {
        OAuthProvider::Linkedin => "LinkedIn",
        OAuthProvider::X => "X",
    };
    let command = match provider {
        OAuthProvider::Linkedin => "publo auth linkedin login",
        OAuthProvider::X => "publo auth x login",
    };
    match error {
        Some(err) => {
            let head = concat3(label, " OAuth returned error: ", err.as_str());
            let message = match error_description {
                Some(d) => {
                    let tail = concat3(" (", d.as_str(), ")");
                    concat2(head.as_str(), tail.as_str())
                },
                None => {
                    proof {
                        assert(head@ + Seq::<char>::empty() =~= head@);
                    }
                    head
                },
            };
            let suggestion = concat3(
                "Retry consent flow and ensure scopes are approved in ",
                label,
                " app settings.",
            );
            return Err(validation(message, Some(suggestion.as_str()), Some(command)));
        },
        None => {},
    }
    let code = match code {
        Some(c) => c,
        None => {
            let message = concat2(label, " callback did not include authorization code.");
            return Err(validation(message, Some("Retry auth flow and complete consent."), Some(command)));
        },
    };
    let state = match state {
        Some(s) => s,
        None => {
            let message = concat2(label, " callback did not include state.");
            return Err(validation(message, Some("Retry auth flow."), Some(command)));
        },
    };
    if !str_eq(state.as_str(), expected_state) {
        let message = concat2(label, " OAuth state mismatch.");
        return Err(
            validation(message, Some("Retry auth flow; ensure you use the latest auth URL."), Some(command)),
        );
    }
    Ok(code)
}

/// The state an exchange is given must be the one the login saved.
pub fn check_oauth_state(input_state: &str, expected: &str) -> (r: Result<(), AppError>)
    ensures
        r is Ok <==> input_state@ == expected@,
        r matches Err(e) ==> is_validation(
            e,
            "OAuth state mismatch."@,
            Some("Use the exact state value returned by login command."@),
            Some("publo auth linkedin login"@),
        ),
{
    if str_eq(input_state, expected) {
        Ok(())
    } else {
        Err(
            validation(
                "OAuth state mismatch.".to_owned(),
                Some("Use the exact state value returned by login command."),
                Some("publo auth linkedin login"),
            ),
        )
    }
}

/// The form of X's authorization-code token request.
pub open spec fn spec_x_token_form(
    code: Seq<char>,
    redirect_uri: Seq<char>,
    verifier: Seq<char>,
    client_id: Seq<char>,
    secret: Option<Seq<char>>,
) -> Seq<(Seq<char>, Seq<char>)> {
    let base = seq![
        ("grant_type"@, "authorization_code"@),
        ("code"@, code),
        ("redirect_uri"@, redirect_uri),
        ("code_verifier"@, verifier),
        ("client_id"@, client_id),
    ];
    match secret {
        Some(s) => base.push(("client_secret"@, s)),
        None => base,
    }
}

/// The view of form fields.
pub open spec fn spec_form_view(f: Seq<(String, String)>) -> Seq<(Seq<char>, Seq<char>)> {
    f.map_values(|p: (String, String)| (p.0@, p.1@))
}

fn push_field(form: &mut Vec<(String, String)>, key: &str, value: &str)
    ensures
        spec_form_view(final(form)@) == spec_form_view(old(form)@).push((key@, value@)),
{
    let ghost before = form@;
    form.push((key.to_owned(), value.to_owned()));
    proof {
        assert(spec_form_view(form@) =~= spec_form_view(before).push((key@, value@)));
    }
}

/// The form of X's authorization-code token request.
pub fn x_token_form(
    code: &str,
    redirect_uri: &str,
    code_verifier: &str,
    client_id: &str,
    client_secret: &Option<String>,
) -> (f: Vec<(String, String)>)
    ensures
        spec_form_view(f@) == spec_x_token_form(
            code@,
            redirect_uri@,
            code_verifier@,
            client_id@,
            opt_seq(*client_secret),
        ),
{
    let mut f: Vec<(String, String)> = Vec::new();
    proof {
        assert(spec_form_view(f@) =~= Seq::<(Seq<char>, Seq<char>)>::empty());
    }
    push_field(&mut f, "grant_type", "authorization_code");
    push_field(&mut f, "code", code);
    push_field(&mut f, "redirect_uri", redirect_uri);
    push_field(&mut f, "code_verifier", code_verifier);
    push_field(&mut f, "client_id", client_id);
    match client_secret {
        Some(s) => push_field(&mut f, "client_secret", s.as_str()),
        None => {},
    }
    proof {
        assert(spec_form_view(f@) =~= spec_x_token_form(
            code@,
            redirect_uri@,
            code_verifier@,
            client_id@,
            opt_seq(*client_secret),
        ));
    }
    f
}

/// The form of X's refresh-token request.
pub open spec fn spec_x_refresh_form(
    refresh_token: Seq<char>,
    client_id: Seq<char>,
    secret: Option<Seq<char>>,
) -> Seq<(Seq<char>, Seq<char>)> {
    let base = seq![
        ("grant_type"@, "refresh_token"@),
        ("refresh_token"@, refresh_token),
        ("client_id"@, client_id),
    ];
    match secret {
        Some(s) => base.push(("client_secret"@, s)),
        None => base,
    }
}

/// The form of X's refresh-token request.
pub fn x_refresh_form(refresh_token: &str, client_id: &str, client_secret: &Option<String>) -> (f: Vec<
    (String, String),
>)
    ensures
        spec_form_view(f@) == spec_x_refresh_form(refresh_token@, client_id@, opt_seq(*client_secret)),
{
    let mut f: Vec<(String, String)> = Vec::new();
    proof {
        assert(spec_form_view(f@) =~= Seq::<(Seq<char>, Seq<char>)>::empty());
    }
    push_field(&mut f, "grant_type", "refresh_token");
    push_field(&mut f, "refresh_token", refresh_token);
    push_field(&mut f, "client_id", client_id);
    match client_secret {
        Some(s) => push_field(&mut f, "client_secret", s.as_str()),
        None => {},
    }
    proof {
        assert(spec_form_view(f@) =~= spec_x_refresh_form(
            refresh_token@,
            client_id@,
            opt_seq(*client_secret),
        ));
    }
    f
}

/// The form of LinkedIn's authorization-code token request.
pub fn linkedin_token_form(code: &str, redirect_uri: &str, client_id: &str, client_secret: &str) -> (f: Vec<
    (String, String),
>)
    ensures
        spec_form_view(f@) == seq![
            ("grant_type"@, "authorization_code"@),
            ("code"@, code@),
            ("redirect_uri"@, redirect_uri@),
            ("client_id"@, client_id@),
            ("client_secret"@, client_secret@),
        ],
{
    let mut f: Vec<(String, String)> = Vec::new();
    proof {
        assert(spec_form_view(f@) =~= Seq::<(Seq<char>, Seq<char>)>::empty());
    }
    push_field(&mut f, "grant_type", "authorization_code");
    push_field(&mut f, "code", code);
    push_field(&mut f, "redirect_uri", redirect_uri);
    push_field(&mut f, "client_id", client_id);
    push_field(&mut f, "client_secret", client_secret);
    proof {
        assert(spec_form_view(f@) =~= seq![
            ("grant_type"@, "authorization_code"@),
            ("code"@, code@),
            ("redirect_uri"@, redirect_uri@),
            ("client_id"@, client_id@),
            ("client_secret"@, client_secret@),
        ]);
    }
    f
}

/// What an X token answer holds.
#[derive(Debug)]
pub struct XTokenResponse {
    pub access_token: String,
    pub refresh_token: Option<String>,
    pub expires_in: Option<u64>,
    pub scope: Option<String>,
    pub token_type: Option<String>,
}

/// The `.env` values an X token answer writes, in order: the access token,
/// then the refresh token, lifetime, scopes and token type it holds.
pub open spec fn spec_x_token_env(t: XTokenResponse) -> Seq<(Seq<char>, Seq<char>)> {
    let a = seq![("X_ACCESS_TOKEN"@, t.access_token@)];
    let b = match t.refresh_token {
        Some(r) => a.push(("X_REFRESH_TOKEN"@, r@)),
        None => a,
    };
    let c = match t.expires_in {
        Some(n) => b.push(("X_ACCESS_TOKEN_EXPIRES_IN"@, spec_decimal(n as nat))),
        None => b,
    };
    let d = match t.scope {
        Some(s) => c.push(("X_SCOPES"@, s@)),
        None => c,
    };
    match t.token_type {
        Some(s) => d.push(("X_TOKEN_TYPE"@, s@)),
        None => d,
    }
}

/// The `.env` values an X token answer writes.
pub fn x_token_env_updates(token: &XTokenResponse) -> (u: Vec<(String, String)>)
    ensures
        spec_form_view(u@) == spec_x_token_env(*token),
{
    let mut u: Vec<(String, String)> = Vec::new();
    proof {
        assert(spec_form_view(u@) =~= Seq::<(Seq<char>, Seq<char>)>::empty());
    }
    push_field(&mut u, "X_ACCESS_TOKEN", token.access_token.as_str());
    match &token.refresh_token {
        Some(r) => push_field(&mut u, "X_REFRESH_TOKEN", r.as_str()),
        None => {},
    }
    match token.expires_in {
        Some(n) => {
            let d = decimal(n);
            push_field(&mut u, "X_ACCESS_TOKEN_EXPIRES_IN", d.as_str());
        },
        None => {},
    }
    match &token.scope {
        Some(s) => push_field(&mut u, "X_SCOPES", s.as_str()),
        None => {},
    }
    match &token.token_type {
        Some(s) => push_field(&mut u, "X_TOKEN_TYPE", s.as_str()),
        None => {},
    }
    u
}

/// What a LinkedIn token answer holds.
#[derive(Debug)]
pub struct LinkedinTokenResponse {
    pub access_token: String,
    pub refresh_token: Option<String>,
    pub expires_in: Option<u64>,
    pub refresh_token_expires_in: Option<u64>,
}

/// The `.env` values a LinkedIn token answer writes, in order: the access
/// token, then the refresh token and the two lifetimes it holds.
pub open spec fn spec_linkedin_token_env(t: LinkedinTokenResponse) -> Seq<(Seq<char>, Seq<char>)> {
    let a = seq![("LINKEDIN_ACCESS_TOKEN"@, t.access_token@)];
    let b = match t.refresh_token {
        Some(r) => a.push(("LINKEDIN_REFRESH_TOKEN"@, r@)),
        None => a,
    };
    let c = match t.expires_in {
        Some(n) => b.push(("LINKEDIN_ACCESS_TOKEN_EXPIRES_IN"@, spec_decimal(n as nat))),
        None => b,
    };
    match t.refresh_token_expires_in {
        Some(n) => c.push(("LINKEDIN_REFRESH_TOKEN_EXPIRES_IN"@, spec_decimal(n as nat))),
        None => c,
    }
}

/// The `.env` values a LinkedIn token answer writes.
pub fn linkedin_token_env_updates(token: &LinkedinTokenResponse) -> (u: Vec<(String, String)>)
    ensures
        spec_form_view(u@) == spec_linkedin_token_env(*token),
{
    let mut u: Vec<(String, String)> = Vec::new();
    proof {
        assert(spec_form_view(u@) =~= Seq::<(Seq<char>, Seq<char>)>::empty());
    }
    push_field(&mut u, "LINKEDIN_ACCESS_TOKEN", token.access_token.as_str());
    match &token.refresh_token {
        Some(r) => push_field(&mut u, "LINKEDIN_REFRESH_TOKEN", r.as_str()),
        None => {},
    }
    match token.expires_in {
        Some(n) => {
            let d = decimal(n);
            push_field(&mut u, "LINKEDIN_ACCESS_TOKEN_EXPIRES_IN", d.as_str());
        },
        None => {},
    }
    match token.refresh_token_expires_in {
        Some(n) => {
            let d = decimal(n);
            push_field(&mut u, "LINKEDIN_REFRESH_TOKEN_EXPIRES_IN", d.as_str());
        },
        None => {},
    }
    u
}

/// The form of LinkedIn's refresh-token request.
pub fn linkedin_refresh_form(refresh_token: &str, client_id: &str, client_secret: &str) -> (f: Vec<
    (String, String),
>)
    ensures
        spec_form_view(f@) == seq![
            ("grant_type"@, "refresh_token"@),
            ("refresh_token"@, refresh_token@),
            ("client_id"@, client_id@),
            ("client_secret"@, client_secret@),
        ],
{
    let mut f: Vec<(String, String)> = Vec::new();
    proof {
        assert(spec_form_view(f@) =~= Seq::<(Seq<char>, Seq<char>)>::empty());
    }
    push_field(&mut f, "grant_type", "refresh_token");
    push_field(&mut f, "refresh_token", refresh_token);
    push_field(&mut f, "client_id", client_id);
    push_field(&mut f, "client_secret", client_secret);
    proof {
        assert(spec_form_view(f@) =~= seq![
            ("grant_type"@, "refresh_token"@),
            ("refresh_token"@, refresh_token@),
            ("client_id"@, client_id@),
            ("client_secret"@, client_secret@),
        ]);
    }
    f
}

/// The `.env` values a LinkedIn refresh answer writes, in order: the access
/// token, then its lifetime, the new refresh token and its lifetime as far
/// as the answer holds them.
pub open spec fn spec_linkedin_refresh_env(t: LinkedinTokenResponse) -> Seq<(Seq<char>, Seq<char>)> {
    let a = seq![("LINKEDIN_ACCESS_TOKEN"@, t.access_token@)];
    let b = match t.expires_in {
        Some(n) => a.push(("LINKEDIN_ACCESS_TOKEN_EXPIRES_IN"@, spec_decimal(n as nat))),
        None => a,
    };
    let c = match t.refresh_token {
        Some(r) => b.push(("LINKEDIN_REFRESH_TOKEN"@, r@)),
        None => b,
    };
    match t.refresh_token_expires_in {
        Some(n) => c.push(("LINKEDIN_REFRESH_TOKEN_EXPIRES_IN"@, spec_decimal(n as nat))),
        None => c,
    }
}

/// The `.env` values a LinkedIn refresh answer writes.
pub fn linkedin_refresh_env_updates(token: &LinkedinTokenResponse) -> (u: Vec<(String, String)>)
    ensures
        spec_form_view(u@) == spec_linkedin_refresh_env(*token),
{
    let mut u: Vec<(String, String)> = Vec::new();
    proof {
        assert(spec_form_view(u@) =~= Seq::<(Seq<char>, Seq<char>)>::empty());
    }
    push_field(&mut u, "LINKEDIN_ACCESS_TOKEN", token.access_token.as_str());
    match token.expires_in {
        Some(n) => {
            let d = decimal(n);
            push_field(&mut u, "LINKEDIN_ACCESS_TOKEN_EXPIRES_IN", d.as_str());
        },
        None => {},
    }
    match &token.refresh_token {
        Some(r) => push_field(&mut u, "LINKEDIN_REFRESH_TOKEN", r.as_str()),
        None => {},
    }
    match token.refresh_token_expires_in {
        Some(n) => {
            let d = decimal(n);
            push_field(&mut u, "LINKEDIN_REFRESH_TOKEN_EXPIRES_IN", d.as_str());
        },
        None => {},
    }
    u
}

/// An exchange needs the state the login saved; `saved` is that state, or
/// `None` when no login left one.
pub fn check_saved_oauth_state(input_state: &str, saved: &Option<String>) -> (r: Result<(), AppError>)
    ensures
        match *saved {
            None => r matches Err(e) && is_validation(
                e,
                "OAuth state file not found. Start login again."@,
                Some("Run publo auth linkedin login, then retry exchange with returned state."@),
                Some("publo auth linkedin login"@),
            ),
            Some(expected) => (r is Ok <==> input_state@ == expected@) && (r matches Err(e)
                ==> is_validation(
                e,
                "OAuth state mismatch."@,
                Some("Use the exact state value returned by login command."@),
                Some("publo auth linkedin login"@),
            )),
        },
{
    match saved {
        None => Err(
            validation(
                "OAuth state file not found. Start login again.".to_owned(),
                Some("Run publo auth linkedin login, then retry exchange with returned state."),
                Some("publo auth linkedin login"),
            ),
        ),
        Some(expected) => check_oauth_state(input_state, expected.as_str()),
    }
}

/// What a LinkedIn code exchange needs: the app's id, secret and callback.
pub fn linkedin_exchange_credentials(env: &EnvVars) -> (r: Result<(String, String, String), AppError>)
    ensures
        match spec_env_var(*env, "LINKEDIN_CLIENT_ID"@) {
            None => r matches Err(e) && is_missing_auth(
                e,
                "LINKEDIN_CLIENT_ID is missing."@,
                Some("Set LINKEDIN_CLIENT_ID in .env from your LinkedIn app settings."@),
                Some("publo auth linkedin guide"@),
            ),
            Some(id) => match spec_env_var(*env, "LINKEDIN_CLIENT_SECRET"@) {
                None => r matches Err(e) && is_missing_auth(
                    e,
                    "LINKEDIN_CLIENT_SECRET is missing."@,
                    Some("Set LINKEDIN_CLIENT_SECRET in .env from your LinkedIn app settings."@),
                    Some("publo auth linkedin guide"@),
                ),
                Some(secret) => match spec_env_var(*env, "LINKEDIN_REDIRECT_URI"@) {
                    None => r matches Err(e) && is_missing_auth(
                        e,
                        "LINKEDIN_REDIRECT_URI is missing."@,
                        Some("Set LINKEDIN_REDIRECT_URI in .env and match it in LinkedIn app settings."@),
                        Some("publo auth linkedin guide"@),
                    ),
                    Some(redirect) => r matches Ok((a, b, c)) && a@ == id && b@ == secret && c@
                        == redirect,
                },
            },
        },
{
    let (id, secret) = crate::requests::linkedin_refresh_credentials(env)?;
    match env.var("LINKEDIN_REDIRECT_URI") {
        Some(redirect) => Ok((id, secret, redirect)),
        None => Err(
            missing_auth(
                "LINKEDIN_REDIRECT_URI is missing.".to_owned(),
                Some("Set LINKEDIN_REDIRECT_URI in .env and match it in LinkedIn app settings."),
                Some("publo auth linkedin guide"),
            ),
        ),
    }
}

/// What an X login saved for a later code exchange.
#[derive(Debug)]
pub struct SavedXLogin {
    pub state: String,
    pub code_verifier: String,
    pub client_id: String,
    pub redirect_uri: String,
}

/// What an X code exchange sends: the client id, callback, PKCE verifier and
/// optional client secret.
#[derive(Debug)]
pub struct XExchangeInputs {
    pub client_id: String,
    pub redirect_uri: String,
    pub code_verifier: String,
    pub client_secret: Option<String>,
}

/// A value set in the environment, else the saved one.
pub open spec fn spec_env_or_saved(env: EnvVars, key: Seq<char>, saved: Option<Seq<char>>) -> Option<Seq<char>> {
    match spec_env_non_empty(env, key) {
        Some(v) => Some(v),
        None => saved,
    }
}

/// `auth x exchange`: the given state must be the saved login's, when one
/// was saved; the client id and callback come from the environment, else
/// from the saved login; the verifier is the given one, else the saved one.
pub open spec fn spec_x_exchange_inputs(
    r: Result<XExchangeInputs, AppError>,
    env: EnvVars,
    saved: Option<SavedXLogin>,
    state: Seq<char>,
    code_verifier: Option<Seq<char>>,
) -> bool {
    let client_id = spec_env_or_saved(env, "X_CLIENT_ID"@, match saved { Some(s) => Some(s.client_id@), None => None });
    let redirect = spec_env_or_saved(env, "X_REDIRECT_URI"@, match saved { Some(s) => Some(s.redirect_uri@), None => None });
    let verifier = match code_verifier {
        Some(v) => Some(v),
        None => match saved { Some(s) => Some(s.code_verifier@), None => None },
    };
    if saved matches Some(s) && s.state@ != state {
        r matches Err(e) && is_validation(
            e,
            "X OAuth state mismatch."@,
            Some("Use state returned from latest login/auth URL."@),
            Some("publo auth x login"@),
        )
    } else if client_id is None {
        r matches Err(e) && is_missing_auth(
            e,
            "X_CLIENT_ID is missing."@,
            Some("Set X_CLIENT_ID in .env from your X app OAuth 2.0 settings."@),
            Some("publo auth x exchange --code <code> --state <state>"@),
        )
    } else if redirect is None {
        r matches Err(e) && is_missing_auth(
            e,
            "X_REDIRECT_URI is missing."@,
            Some("Set X_REDIRECT_URI in .env to match X app callback URL."@),
            Some("publo auth x exchange --code <code> --state <state>"@),
        )
    } else if verifier is None {
        r matches Err(e) && is_validation(
            e,
            "Missing PKCE code verifier."@,
            Some("Use --code-verifier or run publo auth x login first so verifier is saved."@),
            Some("publo auth x login"@),
        )
    } else {
        r matches Ok(i) && Some(i.client_id@) == client_id && Some(i.redirect_uri@) == redirect
            && Some(i.code_verifier@) == verifier && opt_seq(i.client_secret) == spec_env_non_empty(
            env,
            "X_CLIENT_SECRET"@,
        )
    }
}

/// What `auth x exchange` sends, from its arguments, the environment and
/// the saved login.
pub fn x_exchange_inputs(
    env: &EnvVars,
    saved: &Option<SavedXLogin>,
    state: &str,
    code_verifier: Option<String>,
) -> (r: Result<XExchangeInputs, AppError>)
    ensures
        spec_x_exchange_inputs(
            r,
            *env,
            *saved,
            state@,
            match code_verifier {
                Some(v) => Some(v@),
                None => None,
            },
        ),
{
    match saved {
        Some(s) => {
            if !str_eq(s.state.as_str(), state) {
                return Err(
                    validation(
                        "X OAuth state mismatch.".to_owned(),
                        Some("Use state returned from latest login/auth URL."),
                        Some("publo auth x login"),
                    ),
                );
            }
        },
        None => {},
    }
    let client_id = match env.non_empty("X_CLIENT_ID") {
        Some(v) => v,
        None => match saved {
            Some(s) => s.client_id.clone(),
            None => {
                return Err(
                    missing_auth(
                        "X_CLIENT_ID is missing.".to_owned(),
                        Some("Set X_CLIENT_ID in .env from your X app OAuth 2.0 settings."),
                        Some("publo auth x exchange --code <code> --state <state>"),
                    ),
                );
            },
        },
    };
    let redirect_uri = match env.non_empty("X_REDIRECT_URI") {
        Some(v) => v,
        None => match saved {
            Some(s) => s.redirect_uri.clone(),
            None => {
                return Err(
                    missing_auth(
                        "X_REDIRECT_URI is missing.".to_owned(),
                        Some("Set X_REDIRECT_URI in .env to match X app callback URL."),
                        Some("publo auth x exchange --code <code> --state <state>"),
                    ),
                );
            },
        },
    };
    let verifier = match code_verifier {
        Some(v) => v,
        None => match saved {
            Some(s) => s.code_verifier.clone(),
            None => {
                return Err(
                    validation(
                        "Missing PKCE code verifier.".to_owned(),
                        Some("Use --code-verifier or run publo auth x login first so verifier is saved."),
                        Some("publo auth x login"),
                    ),
                );
            },
        },
    };
    let client_secret = env.non_empty("X_CLIENT_SECRET");
    Ok(XExchangeInputs { client_id, redirect_uri, code_verifier: verifier, client_secret })
}

/// The author URN of a LinkedIn member.
pub fn linkedin_author_urn(sub: &str) -> (u: String)
    ensures
        u@ == "urn:li:person:"@ + sub@,
{
    concat2("urn:li:person:", sub)
}

} // verus!
