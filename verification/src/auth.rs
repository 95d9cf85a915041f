//! Provider credentials read from the workspace environment: LinkedIn and X
//! tokens, and the Substack session and publication URL.
use vstd::prelude::*;

use crate::chars::{chars_of, str_eq};
use crate::errors::{is_missing_auth, is_validation, missing_auth, opt_seq, validation, AppError};
use crate::text::{concat2, contains, spec_contains, spec_starts_with, spec_trim, trim};
use crate::urls::{spec_url_parse, spec_url_with_parts, url_parse, url_with_parts};

verus! {

/// The environment variables a command sees, by name.
#[derive(Debug)]
pub struct EnvVars {
    pub vars: Vec<(String, String)>,
}

/// The value of the first variable named `key`.
pub open spec fn spec_env_lookup(vars: Seq<(String, String)>, key: Seq<char>, i: int) -> Option<Seq<char>>
    decreases vars.len() - i,
{
    if i < 0 || i >= vars.len() {
        None
    } else if vars[i].0@ == key {
        Some(vars[i].1@)
    } else {
        spec_env_lookup(vars, key, i + 1)
    }
}

/// The value of the variable `key` (`std::env::var`).
pub open spec fn spec_env_var(env: EnvVars, key: Seq<char>) -> Option<Seq<char>> {
    spec_env_lookup(env.vars@, key, 0)
}

/// The value of `key`, trimmed, when it holds more than whitespace.
pub open spec fn spec_env_non_empty(env: EnvVars, key: Seq<char>) -> Option<Seq<char>> {
    match spec_env_var(env, key) {
        Some(v) => if spec_trim(v).len() > 0 {
            Some(spec_trim(v))
        } else {
            None
        },
        None => None,
    }
}

impl EnvVars {
    /// The value of the variable `key`.
    pub fn var(&self, key: &str) -> (r: Option<String>)
        ensures
            opt_seq(r) == spec_env_var(*self, key@),
    {
        let mut i: usize = 0;
        while i < self.vars.len()
            invariant
                0 <= i <= self.vars@.len(),
                spec_env_lookup(self.vars@, key@, 0) == spec_env_lookup(self.vars@, key@, i as int),
            decreases self.vars.len() - i,
        {
            if str_eq(self.vars[i].0.as_str(), key) {
                return Some(self.vars[i].1.clone());
            }
            i = i + 1;
        }
        None
    }

    /// The value of `key`, trimmed, when it holds more than whitespace.
    pub fn non_empty(&self, key: &str) -> (r: Option<String>)
        ensures
            opt_seq(r) == spec_env_non_empty(*self, key@),
    {
        match self.var(key) {
            Some(v) => {
                let t = trim(v.as_str());
                if t.as_str().unicode_len() > 0 {
                    Some(t)
                } else {
                    None
                }
            },
            None => None,
        }
    }
}

/// The value of `key` in `env`, trimmed, when it holds more than whitespace.
pub fn env_non_empty(env: &EnvVars, key: &str) -> (r: Option<String>)
    ensures
        opt_seq(r) == spec_env_non_empty(*env, key@),
{
    env.non_empty(key)
}

/// LinkedIn credentials.
#[derive(Debug)]
pub struct LinkedinAuth {
    pub access_token: String,
    pub refresh_token: Option<String>,
    pub author_urn: String,
    pub version: String,
}

/// LinkedIn credentials from the environment: the access token and author URN
/// are required; the API version defaults to `202601`.
pub open spec fn spec_linkedin_auth(r: Result<LinkedinAuth, AppError>, env: EnvVars) -> bool {
    match spec_env_var(env, "LINKEDIN_ACCESS_TOKEN"@) {
        None => r matches Err(e) && is_missing_auth(
            e,
            "No LinkedIn access token found."@,
            Some("Set LINKEDIN_ACCESS_TOKEN in .env after completing OAuth authorization."@),
            Some("publo auth linkedin guide"@),
        ),
        Some(token) => match spec_env_var(env, "LINKEDIN_AUTHOR_URN"@) {
            None => r matches Err(e) && is_missing_auth(
                e,
                "No LinkedIn author URN found."@,
                Some("Set LINKEDIN_AUTHOR_URN (example: urn:li:person:...) in .env."@),
                Some("publo auth linkedin guide"@),
            ),
            Some(urn) => r matches Ok(a) && a.access_token@ == token && a.author_urn@ == urn
                && a.version@ == match spec_env_non_empty(env, "LINKEDIN_API_VERSION"@) {
                Some(v) => v,
                None => "202601"@,
            } && opt_seq(a.refresh_token) == spec_env_non_empty(env, "LINKEDIN_REFRESH_TOKEN"@),
        },
    }
}

/// LinkedIn credentials from the environment.
pub fn load_linkedin_auth(env: &EnvVars) -> (r: Result<LinkedinAuth, AppError>)
    ensures
        spec_linkedin_auth(r, *env),
{
    let access_token = match env.var("LINKEDIN_ACCESS_TOKEN") {
        Some(t) => t,
        None => {
            return Err(
                missing_auth(
                    "No LinkedIn access token found.".to_owned(),
                    Some("Set LINKEDIN_ACCESS_TOKEN in .env after completing OAuth authorization."),
                    Some("publo auth linkedin guide"),
                ),
            );
        },
    };
    let author_urn = match env.var("LINKEDIN_AUTHOR_URN") {
        Some(u) => u,
        None => {
            return Err(
                missing_auth(
                    "No LinkedIn author URN found.".to_owned(),
                    Some("Set LINKEDIN_AUTHOR_URN (example: urn:li:person:...) in .env."),
                    Some("publo auth linkedin guide"),
                ),
            );
        },
    };
    let version = match env.non_empty("LINKEDIN_API_VERSION") {
        Some(v) => v,
        None => "202601".to_owned(),
    };
    let refresh_token = env.non_empty("LINKEDIN_REFRESH_TOKEN");
    Ok(LinkedinAuth { access_token, refresh_token, author_urn, version })
}

/// X credentials.
#[derive(Debug)]
pub struct XAuth {
    pub access_token: String,
    pub refresh_token: Option<String>,
}

/// X credentials from the environment: a non-blank access token is required.
pub open spec fn spec_x_auth(r: Result<XAuth, AppError>, env: EnvVars) -> bool {
    match spec_env_non_empty(env, "X_ACCESS_TOKEN"@) {
        None => r matches Err(e) && is_missing_auth(
            e,
            "No X access token found."@,
            Some("Set X_ACCESS_TOKEN in .env from your X app user authorization."@),
            Some("publo publish x --file <path>"@),
        ),
        Some(token) => r matches Ok(a) && a.access_token@ == token && opt_seq(a.refresh_token)
            == spec_env_non_empty(env, "X_REFRESH_TOKEN"@),
    }
}

/// X credentials from the environment.
pub fn load_x_auth(env: &EnvVars) -> (r: Result<XAuth, AppError>)
    ensures
        spec_x_auth(r, *env),
{
    match env.non_empty("X_ACCESS_TOKEN") {
        Some(access_token) => Ok(XAuth { access_token, refresh_token: env.non_empty("X_REFRESH_TOKEN") }),
        None => Err(
            missing_auth(
                "No X access token found.".to_owned(),
                Some("Set X_ACCESS_TOKEN in .env from your X app user authorization."),
                Some("publo publish x --file <path>"),
            ),
        ),
    }
}

/// Substack credentials: the `substack.sid` cookie value and the root URL of
/// the publication.
#[derive(Debug)]
pub struct SubstackAuth {
    pub session_token: String,
    pub publication_url: String,
}

/// A session token that is more than the cookie's value.
pub open spec fn spec_bad_session_token(t: Seq<char>) -> bool {
    spec_starts_with(t, "substack.sid="@) || spec_contains(t, ";"@) || spec_contains(t, "\n"@)
        || spec_contains(t, "\r"@)
}

/// A publication URL that is not HTTPS with a host and without credentials.
pub open spec fn spec_bad_publication_url(u: crate::urls::UrlView) -> bool {
    u.scheme != "https"@ || u.host is None || u.username.len() != 0 || u.password is Some
}

/// Substack credentials from the environment, checked in this order: the
/// session token is set, it is the bare cookie value, the publication URL is
/// set, it parses, it is HTTPS with a host and no credentials; the URL kept
/// is its root, without query or fragment.
pub open spec fn spec_substack_auth(r: Result<SubstackAuth, AppError>, env: EnvVars) -> bool {
    match spec_env_non_empty(env, "SUBSTACK_SESSION_TOKEN"@) {
        None => r matches Err(e) && is_missing_auth(
            e,
            "No Substack session token found."@,
            Some(
                "Copy the value of the substack.sid browser cookie into SUBSTACK_SESSION_TOKEN in the workspace .env file."@,
            ),
            Some("publo auth substack guide"@),
        ),
        Some(token) => if spec_bad_session_token(token) {
            r matches Err(e) && is_validation(
                e,
                "SUBSTACK_SESSION_TOKEN must contain only the substack.sid cookie value."@,
                Some("Remove the 'substack.sid=' prefix and do not paste a complete Cookie header."@),
                Some("publo auth substack guide"@),
            )
        } else {
            match spec_env_non_empty(env, "SUBSTACK_PUBLICATION_URL"@) {
                None => r matches Err(e) && is_missing_auth(
                    e,
                    "No Substack publication URL found."@,
                    Some(
                        "Set SUBSTACK_PUBLICATION_URL to an HTTPS publication URL such as https://yourname.substack.com."@,
                    ),
                    Some("publo auth substack guide"@),
                ),
                Some(raw) => match spec_url_parse(raw) {
                    Err(msg) => r matches Err(e) && is_validation(
                        e,
                        "Invalid SUBSTACK_PUBLICATION_URL: "@ + msg,
                        Some("Use a complete HTTPS publication URL."@),
                        Some("publo auth substack guide"@),
                    ),
                    Ok(u) => if spec_bad_publication_url(u) {
                        r matches Err(e) && is_validation(
                            e,
                            "SUBSTACK_PUBLICATION_URL must be an HTTPS URL without embedded credentials."@,
                            Some("Use a URL such as https://yourname.substack.com."@),
                            Some("publo auth substack guide"@),
                        )
                    } else {
                        r matches Ok(a) && a.session_token@ == token && Some(a.publication_url@)
                            == spec_url_with_parts(raw, "/"@, None, None)
                    },
                },
            }
        },
    }
}

/// Substack credentials from the environment.
pub fn load_substack_auth(env: &EnvVars) -> (r: Result<SubstackAuth, AppError>)
    ensures
        spec_substack_auth(r, *env),
{
    let session_token = match env.non_empty("SUBSTACK_SESSION_TOKEN") {
        Some(t) => t,
        None => {
            return Err(
                missing_auth(
                    "No Substack session token found.".to_owned(),
                    Some(
                        "Copy the value of the substack.sid browser cookie into SUBSTACK_SESSION_TOKEN in the workspace .env file.",
                    ),
                    Some("publo auth substack guide"),
                ),
            );
        },
    };
    let tv = chars_of(session_token.as_str());
    let prefix = chars_of("substack.sid=");
    if crate::text::matches_at(&tv, &prefix, 0) || contains(session_token.as_str(), ";")
        || contains(session_token.as_str(), "\n") || contains(session_token.as_str(), "\r") {
        return Err(
            validation(
                "SUBSTACK_SESSION_TOKEN must contain only the substack.sid cookie value.".to_owned(),
                Some("Remove the 'substack.sid=' prefix and do not paste a complete Cookie header."),
                Some("publo auth substack guide"),
            ),
        );
    }
    let raw = match env.non_empty("SUBSTACK_PUBLICATION_URL") {
        Some(u) => u,
        None => {
            return Err(
                missing_auth(
                    "No Substack publication URL found.".to_owned(),
                    Some(
                        "Set SUBSTACK_PUBLICATION_URL to an HTTPS publication URL such as https://yourname.substack.com.",
                    ),
                    Some("publo auth substack guide"),
                ),
            );
        },
    };
    let parsed = match url_parse(raw.as_str()) {
        Ok(p) => p,
        Err(msg) => {
            let message = concat2("Invalid SUBSTACK_PUBLICATION_URL: ", msg.as_str());
            return Err(
                validation(
                    message,
                    Some("Use a complete HTTPS publication URL."),
                    Some("publo auth substack guide"),
                ),
            );
        },
    };
    if !str_eq(parsed.scheme.as_str(), "https") || parsed.host.is_none()
        || parsed.username.as_str().unicode_len() != 0 || parsed.password.is_some() {
        return Err(
            validation(
                "SUBSTACK_PUBLICATION_URL must be an HTTPS URL without embedded credentials.".to_owned(),
                Some("Use a URL such as https://yourname.substack.com."),
                Some("publo auth substack guide"),
            ),
        );
    }
    match url_with_parts(raw.as_str(), "/", None, None) {
        Some(publication_url) => Ok(SubstackAuth { session_token, publication_url }),
        None => {
            proof {
                assert(false);
            }
            Err(
                validation(
                    "SUBSTACK_PUBLICATION_URL must be an HTTPS URL without embedded credentials.".to_owned(),
                    Some("Use a URL such as https://yourname.substack.com."),
                    Some("publo auth substack guide"),
                ),
            )
        },
    }
}

} // verus!
